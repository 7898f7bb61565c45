//! The interpreter: a program counter, a bounded operand stack, a table of
//! variables that alias stack slots, and the loop resolver.
use vstd::prelude::*;

use crate::catalog::{entry_views, find_entry, lookup};
use crate::instr::{image_view, InstrView, Instruction};
use crate::text::same_text;

verus! {

/// Capacity of the operand stack.
pub const STACK_MAX: usize = 100;

/// An execution-time fault; it halts the run.
#[derive(PartialEq, Eq, Structural, Clone, Copy, Debug)]
pub enum Fault {
    StackOverflow,
    StackUnderflow,
    UnknownVariable,
    VariableOutOfScope,
    DivisionByZero,
    /// The result of an arithmetic instruction does not fit in 64 bits.
    ArithmeticOverflow,
    /// A loop marker has no partner carrying the same label.
    UnmatchedLoop,
    /// The run used up its step budget before halting.
    StepLimitReached,
}

/// The four arithmetic instructions.
#[derive(PartialEq, Eq, Structural, Clone, Copy, Debug)]
pub enum ArithOp {
    Add,
    Subtract,
    Multiply,
    Divide,
}

/// Integer division rounding toward zero.
pub open spec fn trunc_div(x: int, d: int) -> int {
    if x == 0 {
        0
    } else if x > 0 && d > 0 {
        x / d
    } else if x < 0 && d < 0 {
        (x * -1) / (d * -1)
    } else if x < 0 {
        ((x * -1) / d) * -1
    } else {
        (x / (d * -1)) * -1
    }
}

/// The exact value of `op` applied to `a` (the top of the stack) and `b`
/// (the value below it).
pub open spec fn arith_value(op: ArithOp, a: int, b: int) -> int {
    match op {
        ArithOp::Add => a + b,
        ArithOp::Subtract => a - b,
        ArithOp::Multiply => a * b,
        ArithOp::Divide => trunc_div(a, b),
    }
}

/// The result of an arithmetic instruction on `a` (first popped) and `b`.
pub open spec fn arith_spec(op: ArithOp, a: i64, b: i64) -> Result<i64, Fault> {
    if op == ArithOp::Divide && b == 0 {
        Err(Fault::DivisionByZero)
    } else {
        let v = arith_value(op, a as int, b as int);
        if i64::MIN <= v <= i64::MAX {
            Ok(v as i64)
        } else {
            Err(Fault::ArithmeticOverflow)
        }
    }
}

/// Applies `op` to `a` (the first value popped) and `b` (the second).
pub fn apply_arith(op: ArithOp, a: i64, b: i64) -> (r: Result<i64, Fault>)
    ensures
        r == arith_spec(op, a, b),
{
    let v = match op {
        ArithOp::Add => a.checked_add(b),
        ArithOp::Subtract => a.checked_sub(b),
        ArithOp::Multiply => a.checked_mul(b),
        ArithOp::Divide => {
            if b == 0 {
                return Err(Fault::DivisionByZero);
            }
            a.checked_div(b)
        },
    };
    match v {
        Some(x) => Ok(x),
        None => Err(Fault::ArithmeticOverflow),
    }
}

/// Whether `i` is the start marker of loop `label`.
pub open spec fn starts_loop(i: InstrView, label: Seq<char>) -> bool {
    match i {
        InstrView::LoopStart(id, _) => id == label,
        _ => false,
    }
}

/// The first index at or after `from` that holds the end marker of loop `label`.
pub open spec fn first_loop_end(prog: Seq<InstrView>, label: Seq<char>, from: int) -> Option<int>
    decreases prog.len() - from,
{
    if from < 0 || from >= prog.len() {
        None
    } else if prog[from] == InstrView::LoopEnd(label) {
        Some(from)
    } else {
        first_loop_end(prog, label, from + 1)
    }
}

/// The first index at or after `from` that holds the start marker of loop `label`.
pub open spec fn first_loop_start(prog: Seq<InstrView>, label: Seq<char>, from: int) -> Option<
    int,
>
    decreases prog.len() - from,
{
    if from < 0 || from >= prog.len() {
        None
    } else if starts_loop(prog[from], label) {
        Some(from)
    } else {
        first_loop_start(prog, label, from + 1)
    }
}

/// The machine state between two steps.
pub struct VmState {
    pub pc: int,
    pub stack: Seq<i64>,
    /// Each bound variable with the stack index it aliases.
    pub vars: Seq<(Seq<char>, usize)>,
    /// The values reported so far, in order.
    pub out: Seq<i64>,
}

/// What one step does.
pub enum StepResult {
    Next(VmState),
    Halt(VmState),
    Fault(Fault),
}

pub open spec fn initial_state() -> VmState {
    VmState { pc: 0, stack: Seq::empty(), vars: Seq::empty(), out: Seq::empty() }
}

/// Pushes `v` and moves on, or overflows.
pub open spec fn push_step(s: VmState, v: i64) -> StepResult {
    if s.stack.len() >= STACK_MAX {
        StepResult::Fault(Fault::StackOverflow)
    } else {
        StepResult::Next(VmState { pc: s.pc + 1, stack: s.stack.push(v), ..s })
    }
}

/// The value of a variable as `READ_VAR` and `LOOPW_START` resolve it.
pub open spec fn read_var(s: VmState, name: Seq<char>) -> Result<i64, Fault> {
    match lookup(s.vars, name) {
        None => Err(Fault::UnknownVariable),
        Some(idx) => if idx < s.stack.len() {
            Ok(s.stack[idx as int])
        } else {
            Err(Fault::VariableOutOfScope)
        },
    }
}

/// Pops two values, applies `op` and pushes the result.
pub open spec fn arith_step(s: VmState, op: ArithOp) -> StepResult {
    let n = s.stack.len();
    if n < 2 {
        StepResult::Fault(Fault::StackUnderflow)
    } else {
        match arith_spec(op, s.stack[n - 1], s.stack[n - 2]) {
            Ok(v) => StepResult::Next(VmState { pc: s.pc + 1, stack: s.stack.take(n - 2).push(v), ..s }),
            Err(f) => StepResult::Fault(f),
        }
    }
}

/// One step of the machine on the instruction at `s.pc`. A loop marker
/// jumps to the first marker of the other kind that carries its label;
/// when labels repeat, the earliest one wins.
pub open spec fn step(prog: Seq<InstrView>, s: VmState) -> StepResult {
    let n = s.stack.len();
    match prog[s.pc] {
        InstrView::LoadVal(v) => push_step(s, v),
        InstrView::ReadVar(name) => match read_var(s, name) {
            Ok(v) => push_step(s, v),
            Err(f) => StepResult::Fault(f),
        },
        InstrView::WriteVar(name) => if n == 0 {
            StepResult::Fault(Fault::StackUnderflow)
        } else {
            match lookup(s.vars, name) {
                None => StepResult::Next(
                    VmState { pc: s.pc + 1, vars: s.vars.push((name, (n - 1) as usize)), ..s },
                ),
                Some(idx) => if idx < n - 1 {
                    StepResult::Next(
                        VmState {
                            pc: s.pc + 1,
                            stack: s.stack.drop_last().update(idx as int, s.stack.last()),
                            ..s
                        },
                    )
                } else {
                    StepResult::Fault(Fault::VariableOutOfScope)
                },
            }
        },
        InstrView::Return => if n == 0 {
            StepResult::Fault(Fault::StackUnderflow)
        } else {
            StepResult::Next(
                VmState {
                    pc: s.pc + 1,
                    stack: s.stack.drop_last(),
                    out: s.out.push(s.stack.last()),
                    ..s
                },
            )
        },
        InstrView::LoopStart(id, cond) => match read_var(s, cond) {
            Err(f) => StepResult::Fault(f),
            Ok(v) => if v > 0 {
                StepResult::Next(VmState { pc: s.pc + 1, ..s })
            } else {
                match first_loop_end(prog, id, 0) {
                    Some(j) => StepResult::Next(VmState { pc: j + 1, ..s }),
                    None => StepResult::Fault(Fault::UnmatchedLoop),
                }
            },
        },
        InstrView::LoopEnd(id) => match first_loop_start(prog, id, 0) {
            Some(j) => StepResult::Next(VmState { pc: j, ..s }),
            None => StepResult::Fault(Fault::UnmatchedLoop),
        },
        InstrView::Exit => StepResult::Halt(s),
        InstrView::Add => arith_step(s, ArithOp::Add),
        InstrView::Subtract => arith_step(s, ArithOp::Subtract),
        InstrView::Multiply => arith_step(s, ArithOp::Multiply),
        InstrView::Divide => arith_step(s, ArithOp::Divide),
    }
}

/// A run of at most `fuel` steps from `s`: the values reported, and the
/// fault with the index of the instruction it arose at, if the run did not
/// end by `EXIT` or by running past the last instruction.
pub open spec fn run(prog: Seq<InstrView>, s: VmState, fuel: nat) -> (Seq<i64>, Option<(Fault, int)>)
    decreases fuel,
{
    if s.pc < 0 || s.pc >= prog.len() {
        (s.out, None)
    } else if fuel == 0 {
        (s.out, Some((Fault::StepLimitReached, s.pc)))
    } else {
        match step(prog, s) {
            StepResult::Next(t) => run(prog, t, (fuel - 1) as nat),
            StepResult::Halt(t) => (t.out, None),
            StepResult::Fault(f) => (s.out, Some((f, s.pc))),
        }
    }
}

/// The executable machine state.
struct Machine {
    pc: usize,
    stack: Vec<i64>,
    vars: Vec<(String, usize)>,
    outputs: Vec<i64>,
}

impl View for Machine {
    type V = VmState;

    closed spec fn view(&self) -> VmState {
        VmState {
            pc: self.pc as int,
            stack: self.stack@,
            vars: entry_views(self.vars@),
            out: self.outputs@,
        }
    }
}

enum StepOutcome {
    Continue,
    Halted,
    Faulted(Fault),
}

fn find_loop_end(prog: &Vec<Instruction>, label: &String) -> (r: Option<usize>)
    ensures
        match r {
            Some(j) => first_loop_end(image_view(prog@), label@, 0) == Some(j as int) && j
                < prog@.len(),
            None => first_loop_end(image_view(prog@), label@, 0) is None,
        },
{
    let ghost pv = image_view(prog@);
    let mut j: usize = 0;
    while j < prog.len()
        invariant
            j <= prog@.len(),
            pv == image_view(prog@),
            first_loop_end(pv, label@, 0) == first_loop_end(pv, label@, j as int),
        decreases prog@.len() - j,
    {
        assert(pv[j as int] == prog@[j as int]@);
        match &prog[j] {
            Instruction::LoopEnd(l) => {
                if same_text(l.as_str(), label.as_str()) {
                    return Some(j);
                }
            },
            _ => {},
        }
        j = j + 1;
    }
    None
}

fn find_loop_start(prog: &Vec<Instruction>, label: &String) -> (r: Option<usize>)
    ensures
        match r {
            Some(j) => first_loop_start(image_view(prog@), label@, 0) == Some(j as int),
            None => first_loop_start(image_view(prog@), label@, 0) is None,
        },
{
    let ghost pv = image_view(prog@);
    let mut j: usize = 0;
    while j < prog.len()
        invariant
            j <= prog@.len(),
            pv == image_view(prog@),
            first_loop_start(pv, label@, 0) == first_loop_start(pv, label@, j as int),
        decreases prog@.len() - j,
    {
        assert(pv[j as int] == prog@[j as int]@);
        match &prog[j] {
            Instruction::LoopStart(l, _) => {
                if same_text(l.as_str(), label.as_str()) {
                    return Some(j);
                }
            },
            _ => {},
        }
        j = j + 1;
    }
    None
}

impl Machine {
    fn new() -> (r: Machine)
        ensures
            r@ == initial_state(),
    {
        let r = Machine { pc: 0, stack: Vec::new(), vars: Vec::new(), outputs: Vec::new() };
        assert(entry_views(r.vars@) =~= Seq::<(Seq<char>, usize)>::empty());
        r
    }

    fn read_var(&self, name: &String) -> (r: Result<i64, Fault>)
        ensures
            r == read_var(self@, name@),
    {
        match find_entry(&self.vars, name.as_str()) {
            None => Err(Fault::UnknownVariable),
            Some(idx) => {
                if idx < self.stack.len() {
                    Ok(self.stack[idx])
                } else {
                    Err(Fault::VariableOutOfScope)
                }
            },
        }
    }

    fn push(&mut self, v: i64) -> (r: StepOutcome)
        requires
            old(self).pc < usize::MAX,
        ensures
            match r {
                StepOutcome::Continue => push_step(old(self)@, v) == StepResult::Next(final(self)@),
                StepOutcome::Faulted(f) => push_step(old(self)@, v) == StepResult::Fault(f)
                    && final(self)@ == old(self)@,
                StepOutcome::Halted => false,
            },
    {
        if self.stack.len() >= STACK_MAX {
            return StepOutcome::Faulted(Fault::StackOverflow);
        }
        self.stack.push(v);
        self.pc = self.pc + 1;
        StepOutcome::Continue
    }

    fn arith(&mut self, op: ArithOp) -> (r: StepOutcome)
        requires
            old(self).pc < usize::MAX,
        ensures
            match r {
                StepOutcome::Continue => arith_step(old(self)@, op) == StepResult::Next(final(self)@),
                StepOutcome::Faulted(f) => arith_step(old(self)@, op) == StepResult::Fault(f)
                    && final(self)@ == old(self)@,
                StepOutcome::Halted => false,
            },
    {
        let n = self.stack.len();
        if n < 2 {
            return StepOutcome::Faulted(Fault::StackUnderflow);
        }
        match apply_arith(op, self.stack[n - 1], self.stack[n - 2]) {
            Ok(v) => {
                let ghost before = self.stack@;
                self.stack.truncate(n - 2);
                self.stack.push(v);
                assert(self.stack@ =~= before.take(n - 2).push(v));
                self.pc = self.pc + 1;
                StepOutcome::Continue
            },
            Err(f) => StepOutcome::Faulted(f),
        }
    }

    /// Executes the instruction at `pc`.
    fn step(&mut self, prog: &Vec<Instruction>) -> (r: StepOutcome)
        requires
            old(self).pc < prog@.len(),
        ensures
            match r {
                StepOutcome::Continue => step(image_view(prog@), old(self)@) == StepResult::Next(
                    final(self)@,
                ),
                StepOutcome::Halted => step(image_view(prog@), old(self)@) == StepResult::Halt(
                    old(self)@,
                ) && final(self)@ == old(self)@,
                StepOutcome::Faulted(f) => step(image_view(prog@), old(self)@) == StepResult::Fault(
                    f,
                ) && final(self)@ == old(self)@,
            },
    {
        let ghost pv = image_view(prog@);
        let len = prog.len();
        assert(self.pc < usize::MAX);
        assert(pv[self.pc as int] == prog@[self.pc as int]@);
        match &prog[self.pc] {
            Instruction::LoadVal(v) => self.push(*v),
            Instruction::ReadVar(name) => match self.read_var(name) {
                Ok(v) => self.push(v),
                Err(f) => StepOutcome::Faulted(f),
            },
            Instruction::WriteVar(name) => {
                let n = self.stack.len();
                if n == 0 {
                    return StepOutcome::Faulted(Fault::StackUnderflow);
                }
                match find_entry(&self.vars, name.as_str()) {
                    None => {
                        let ghost before = entry_views(self.vars@);
                        self.vars.push((name.clone(), n - 1));
                        assert(entry_views(self.vars@) =~= before.push((name@, (n - 1) as usize)));
                        self.pc = self.pc + 1;
                        StepOutcome::Continue
                    },
                    Some(idx) => {
                        if idx < n - 1 {
                            let ghost before = self.stack@;
                            let top = self.stack[n - 1];
                            self.stack.truncate(n - 1);
                            self.stack.set(idx, top);
                            assert(self.stack@ =~= before.drop_last().update(idx as int, before.last()));
                            self.pc = self.pc + 1;
                            StepOutcome::Continue
                        } else {
                            StepOutcome::Faulted(Fault::VariableOutOfScope)
                        }
                    },
                }
            },
            Instruction::Add => self.arith(ArithOp::Add),
            Instruction::Subtract => self.arith(ArithOp::Subtract),
            Instruction::Multiply => self.arith(ArithOp::Multiply),
            Instruction::Divide => self.arith(ArithOp::Divide),
            Instruction::Return => {
                let n = self.stack.len();
                if n == 0 {
                    return StepOutcome::Faulted(Fault::StackUnderflow);
                }
                let top = self.stack[n - 1];
                self.stack.truncate(n - 1);
                self.outputs.push(top);
                self.pc = self.pc + 1;
                StepOutcome::Continue
            },
            Instruction::LoopStart(id, cond) => match self.read_var(cond) {
                Err(f) => StepOutcome::Faulted(f),
                Ok(v) => {
                    if v > 0 {
                        self.pc = self.pc + 1;
                        StepOutcome::Continue
                    } else {
                        match find_loop_end(prog, id) {
                            Some(j) => {
                                self.pc = j + 1;
                                StepOutcome::Continue
                            },
                            None => StepOutcome::Faulted(Fault::UnmatchedLoop),
                        }
                    }
                },
            },
            Instruction::LoopEnd(id) => match find_loop_start(prog, id) {
                Some(j) => {
                    self.pc = j;
                    StepOutcome::Continue
                },
                None => StepOutcome::Faulted(Fault::UnmatchedLoop),
            },
            Instruction::Exit => StepOutcome::Halted,
        }
    }
}

/// The outcome of a run: the values reported by `RETURN_VALUE`, in order,
/// and the fault that stopped it, with the index of the faulting
/// instruction, if it did not end by `EXIT` or by running past the end.
#[derive(PartialEq, Eq, Debug)]
pub struct ExecResult {
    pub outputs: Vec<i64>,
    pub fault: Option<(Fault, usize)>,
}

impl ExecResult {
    /// Whether the run ended without a fault.
    pub fn succeeded(&self) -> (r: bool)
        ensures
            r == self.fault is None,
    {
        self.fault.is_none()
    }
}

/// Whether a run's result is the one the machine model gives.
pub open spec fn result_matches(r: ExecResult, spec: (Seq<i64>, Option<(Fault, int)>)) -> bool {
    &&& r.outputs@ == spec.0
    &&& match r.fault {
        None => spec.1 is None,
        Some((f, at)) => spec.1 == Some((f, at as int)),
    }
}

/// Runs the program image `prog` from an empty machine for at most
/// `max_steps` instructions.
pub fn execute_prog(prog: &Vec<Instruction>, max_steps: u64) -> (r: ExecResult)
    ensures
        result_matches(r, run(image_view(prog@), initial_state(), max_steps as nat)),
{
    let ghost pv = image_view(prog@);
    let mut m = Machine::new();
    let mut fuel: u64 = max_steps;
    loop
        invariant
            pv == image_view(prog@),
            run(pv, initial_state(), max_steps as nat) == run(pv, m@, fuel as nat),
        decreases fuel,
    {
        if m.pc >= prog.len() {
            return ExecResult { outputs: m.outputs, fault: None };
        }
        if fuel == 0 {
            return ExecResult { outputs: m.outputs, fault: Some((Fault::StepLimitReached, m.pc)) };
        }
        let pc = m.pc;
        match m.step(prog) {
            StepOutcome::Continue => {},
            StepOutcome::Halted => {
                return ExecResult { outputs: m.outputs, fault: None };
            },
            StepOutcome::Faulted(f) => {
                return ExecResult { outputs: m.outputs, fault: Some((f, pc)) };
            },
        }
        fuel = fuel - 1;
    }
}

} // verus!
