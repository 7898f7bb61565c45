//! Stand-alone operation types that work directly on a double-ended stack
//! of values.
use vstd::prelude::*;

use std::collections::VecDeque;

use crate::engine::{apply_arith, arith_spec, ArithOp};

verus! {

/// What a value of an operation type computes.
pub trait Compute {
    fn compute(&self) -> i64;

    fn display(&self) -> String;
}

/// Pushes a literal.
pub struct LoadVal {
    pub literal: i64,
}

impl LoadVal {
    pub fn new(value: i64) -> (r: Self)
        ensures
            r.literal == value,
    {
        Self { literal: value }
    }

    pub fn literal(&self) -> (r: i64)
        ensures
            r == self.literal,
    {
        self.literal
    }

    /// Pushes `val` on top of `gstack`.
    #[allow(non_snake_case)]
    pub fn PUSH(gstack: &mut VecDeque<i64>, val: i64)
        ensures
            final(gstack)@ == old(gstack)@.push(val),
    {
        gstack.push_back(val)
    }
}

/// Reads a named variable.
pub struct ReadVar {
    pub varname: String,
    pub value: i64,
}

impl ReadVar {
    pub fn new(varname: String, value: i64) -> (r: Self)
        ensures
            r.varname == varname,
            r.value == value,
    {
        Self { varname, value }
    }

    /// Pushes `val` on top of `gstack`.
    #[allow(non_snake_case)]
    pub fn PUSH(gstack: &mut VecDeque<i64>, val: i64)
        ensures
            final(gstack)@ == old(gstack)@.push(val),
    {
        gstack.push_back(val);
    }
}

/// Writes a named variable.
pub struct WriteVar {
    pub varname: String,
    pub value: i64,
}

impl WriteVar {
    pub fn new(varname: String, value: i64) -> (r: Self)
        ensures
            r.varname == varname,
            r.value == value,
    {
        Self { varname, value }
    }

    /// Removes and returns the top of `gstack`, or `None` when it is empty.
    #[allow(non_snake_case)]
    pub fn POP(gstack: &mut VecDeque<i64>) -> (r: Option<i64>)
        ensures
            old(gstack)@.len() == 0 ==> r is None && final(gstack)@ == old(gstack)@,
            old(gstack)@.len() > 0 ==> r == Some(old(gstack)@.last()) && final(gstack)@
                == old(gstack)@.drop_last(),
    {
        gstack.pop_back()
    }
}

/// What `COMPUTE` of operation `op` does to `gstack`: the result, and the
/// stack after it, when it succeeds.
pub open spec fn compute_spec(op: ArithOp, gstack: Seq<i64>) -> Option<(i64, Seq<i64>)> {
    let n = gstack.len();
    if n < 2 {
        None
    } else {
        match arith_spec(op, gstack[n - 1], gstack[n - 2]) {
            Ok(v) => Some((v, gstack.take(n - 2))),
            Err(_) => None,
        }
    }
}

/// Pops the top two values `a` (first) and `b` of `gstack` and combines
/// them with `op`. On failure the stack is left as it was.
fn compute_on(op: ArithOp, gstack: &mut VecDeque<i64>) -> (r: Result<i64, String>)
    ensures
        match compute_spec(op, old(gstack)@) {
            Some((v, rest)) => r == Ok::<i64, String>(v) && final(gstack)@ == rest,
            None => r is Err && final(gstack)@ == old(gstack)@,
        },
{
    let n = gstack.len();
    if n < 2 {
        return Err("Error: Invalid logic, aborting".to_owned());
    }
    match apply_arith(op, gstack[n - 1], gstack[n - 2]) {
        Ok(v) => {
            let ghost before = gstack@;
            gstack.pop_back();
            gstack.pop_back();
            assert(gstack@ =~= before.take(n - 2));
            Ok(v)
        },
        Err(_) => Err("Error: arithmetic fault, aborting".to_owned()),
    }
}

/// Adds the top two values.
pub struct Add {
    pub opcount: u8,
    pub result: i64,
}

impl Add {
    pub fn new() -> (r: Self)
        ensures
            r.opcount == 2,
            r.result == 0,
    {
        Self { opcount: 2, result: 0 }
    }

    /// Pops `a` then `b` and returns `a + b`, which it also records.
    #[allow(non_snake_case)]
    pub fn COMPUTE(&mut self, gstack: &mut VecDeque<i64>) -> (r: Result<i64, String>)
        ensures
            final(self).opcount == old(self).opcount,
            match compute_spec(ArithOp::Add, old(gstack)@) {
                Some((v, rest)) => r == Ok::<i64, String>(v) && final(gstack)@ == rest
                    && final(self).result == v,
                None => r is Err && final(gstack)@ == old(gstack)@ && final(self).result == old(
                    self,
                ).result,
            },
    {
        let r = compute_on(ArithOp::Add, gstack);
        if let Ok(v) = r {
            self.result = v;
        }
        r
    }

    pub fn display(&self) {
    }
}

/// Subtracts: the first value popped minus the second.
pub struct Sub {
    pub opcount: u8,
    pub result: i64,
}

impl Sub {
    pub fn new() -> (r: Self)
        ensures
            r.opcount == 2,
            r.result == 0,
    {
        Self { opcount: 2, result: 0 }
    }

    /// Pops `a` then `b` and returns `a - b`, which it also records.
    #[allow(non_snake_case)]
    pub fn COMPUTE(&mut self, gstack: &mut VecDeque<i64>) -> (r: Result<i64, String>)
        ensures
            final(self).opcount == old(self).opcount,
            match compute_spec(ArithOp::Subtract, old(gstack)@) {
                Some((v, rest)) => r == Ok::<i64, String>(v) && final(gstack)@ == rest
                    && final(self).result == v,
                None => r is Err && final(gstack)@ == old(gstack)@ && final(self).result == old(
                    self,
                ).result,
            },
    {
        let r = compute_on(ArithOp::Subtract, gstack);
        if let Ok(v) = r {
            self.result = v;
        }
        r
    }

    pub fn display(&self) {
    }
}

/// Multiplies the top two values.
pub struct Mul {
    pub opcount: u8,
    pub result: i64,
}

impl Mul {
    pub fn new() -> (r: Self)
        ensures
            r.opcount == 2,
            r.result == 0,
    {
        Self { opcount: 2, result: 0 }
    }

    /// Pops `a` then `b` and returns `a * b`, which it also records.
    #[allow(non_snake_case)]
    pub fn COMPUTE(&mut self, gstack: &mut VecDeque<i64>) -> (r: Result<i64, String>)
        ensures
            final(self).opcount == old(self).opcount,
            match compute_spec(ArithOp::Multiply, old(gstack)@) {
                Some((v, rest)) => r == Ok::<i64, String>(v) && final(gstack)@ == rest
                    && final(self).result == v,
                None => r is Err && final(gstack)@ == old(gstack)@ && final(self).result == old(
                    self,
                ).result,
            },
    {
        let r = compute_on(ArithOp::Multiply, gstack);
        if let Ok(v) = r {
            self.result = v;
        }
        r
    }

    pub fn display(&self) {
    }
}

/// Divides, rounding toward zero: the first value popped divided by the second.
pub struct Div {
    pub opcount: u8,
    pub result: i64,
}

impl Div {
    pub fn new() -> (r: Self)
        ensures
            r.opcount == 2,
            r.result == 0,
    {
        Self { opcount: 2, result: 0 }
    }

    /// Pops `a` then `b` and returns `a / b`, which it also records.
    #[allow(non_snake_case)]
    pub fn COMPUTE(&mut self, gstack: &mut VecDeque<i64>) -> (r: Result<i64, String>)
        ensures
            final(self).opcount == old(self).opcount,
            match compute_spec(ArithOp::Divide, old(gstack)@) {
                Some((v, rest)) => r == Ok::<i64, String>(v) && final(gstack)@ == rest
                    && final(self).result == v,
                None => r is Err && final(gstack)@ == old(gstack)@ && final(self).result == old(
                    self,
                ).result,
            },
    {
        let r = compute_on(ArithOp::Divide, gstack);
        if let Ok(v) = r {
            self.result = v;
        }
        r
    }

    pub fn display(&self) {
    }
}

} // verus!
