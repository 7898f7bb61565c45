//! Properties of the loader and the machine that hold for all inputs.
use vstd::prelude::*;

use crate::catalog::lookup;
use crate::engine::{
    arith_spec, arith_value, first_loop_end, first_loop_start, initial_state, read_var, run, step,
    ArithOp, Fault, StepResult, VmState, STACK_MAX,
};
use crate::instr::InstrView;
use crate::loader::{lemma_load_error_persists, load_spec, load_upto, LoadError};
use crate::text::words;

verus! {

/// Whether `i` is one of `LOAD_VAL`, the arithmetic instructions and `RETURN_VALUE`.
pub open spec fn is_straight_line(i: InstrView) -> bool {
    match i {
        InstrView::LoadVal(_) => true,
        InstrView::Add => true,
        InstrView::Subtract => true,
        InstrView::Multiply => true,
        InstrView::Divide => true,
        InstrView::Return => true,
        _ => false,
    }
}

/// The arithmetic operation of an instruction, if it is one.
pub open spec fn arith_of(i: InstrView) -> Option<ArithOp> {
    match i {
        InstrView::Add => Some(ArithOp::Add),
        InstrView::Subtract => Some(ArithOp::Subtract),
        InstrView::Multiply => Some(ArithOp::Multiply),
        InstrView::Divide => Some(ArithOp::Divide),
        _ => None,
    }
}

pub open spec fn as_ints(s: Seq<i64>) -> Seq<int> {
    s.map_values(|x: i64| x as int)
}

/// Left-to-right evaluation with an unbounded stack of exact integers,
/// from instruction `k` on: the values reported, or `None` when a value is
/// missing from the stack, a divisor is zero or another instruction occurs.
pub open spec fn stack_eval(prog: Seq<InstrView>, k: int, stack: Seq<int>, out: Seq<int>) -> Option<
    Seq<int>,
>
    decreases prog.len() - k,
{
    if k < 0 || k >= prog.len() {
        Some(out)
    } else {
        let n = stack.len();
        match prog[k] {
            InstrView::LoadVal(v) => stack_eval(prog, k + 1, stack.push(v as int), out),
            InstrView::Return => if n == 0 {
                None
            } else {
                stack_eval(prog, k + 1, stack.drop_last(), out.push(stack.last()))
            },
            _ => match arith_of(prog[k]) {
                Some(op) => if n < 2 || (op == ArithOp::Divide && stack[n - 2] == 0) {
                    None
                } else {
                    stack_eval(
                        prog,
                        k + 1,
                        stack.take(n - 2).push(arith_value(op, stack[n - 1], stack[n - 2])),
                        out,
                    )
                },
                None => None,
            },
        }
    }
}

proof fn lemma_straight_line_from(prog: Seq<InstrView>, s: VmState, fuel: nat)
    requires
        forall|i: int| 0 <= i < prog.len() ==> is_straight_line(#[trigger] prog[i]),
        0 <= s.pc <= prog.len(),
        fuel >= prog.len() - s.pc,
        run(prog, s, fuel).1 is None,
    ensures
        stack_eval(prog, s.pc, as_ints(s.stack), as_ints(s.out)) == Some(as_ints(run(prog, s, fuel).0)),
    decreases prog.len() - s.pc,
{
    if s.pc < prog.len() {
        let n = s.stack.len();
        assert(is_straight_line(prog[s.pc]));
        match step(prog, s) {
            StepResult::Next(t) => {
                lemma_straight_line_from(prog, t, (fuel - 1) as nat);
                match prog[s.pc] {
                    InstrView::LoadVal(v) => {
                        assert(as_ints(t.stack) =~= as_ints(s.stack).push(v as int));
                    },
                    InstrView::Return => {
                        assert(as_ints(t.stack) =~= as_ints(s.stack).drop_last());
                        assert(as_ints(t.out) =~= as_ints(s.out).push(s.stack.last() as int));
                    },
                    _ => {
                        let op = arith_of(prog[s.pc])->0;
                        let v = arith_spec(op, s.stack[n - 1], s.stack[n - 2])->Ok_0;
                        assert(as_ints(t.stack) =~= as_ints(s.stack).take(n - 2).push(
                            arith_value(op, s.stack[n - 1] as int, s.stack[n - 2] as int),
                        ));
                    },
                }
            },
            _ => {},
        }
    } else {
        assert(run(prog, s, fuel).0 == s.out);
    }
}

/// A program of `LOAD_VAL`, arithmetic and `RETURN_VALUE` instructions that
/// runs without a fault reports exactly what left-to-right stack evaluation
/// of its instructions reports.
pub proof fn straight_line_matches_stack_eval(prog: Seq<InstrView>, fuel: nat)
    requires
        forall|i: int| 0 <= i < prog.len() ==> is_straight_line(#[trigger] prog[i]),
        fuel >= prog.len(),
        run(prog, crate::engine::initial_state(), fuel).1 is None,
    ensures
        stack_eval(prog, 0, Seq::empty(), Seq::empty()) == Some(
            as_ints(run(prog, crate::engine::initial_state(), fuel).0),
        ),
{
    let s = crate::engine::initial_state();
    assert(as_ints(s.stack) =~= Seq::<int>::empty());
    assert(as_ints(s.out) =~= Seq::<int>::empty());
    lemma_straight_line_from(prog, s, fuel);
}

/// Loading the same lines against the same catalog twice gives the same
/// result: equal program images, or the same error.
pub proof fn loading_is_deterministic(
    lines: Seq<Seq<char>>,
    cat: Seq<(Seq<char>, i8)>,
    first: Result<Seq<InstrView>, LoadError>,
    second: Result<Seq<InstrView>, LoadError>,
)
    requires
        first == load_spec(lines, cat),
        second == load_spec(lines, cat),
    ensures
        first == second,
{
}

/// A line whose first word the catalog does not hold (or a line with no
/// words) rejects the whole load: no program image is produced.
pub proof fn unknown_mnemonic_rejects_load(lines: Seq<Seq<char>>, cat: Seq<(Seq<char>, i8)>, i: int)
    requires
        0 <= i < lines.len(),
        words(lines[i]).len() == 0 || lookup(cat, words(lines[i])[0]) is None,
    ensures
        load_spec(lines, cat) is Err,
{
    assert(load_upto(lines, cat, (i + 1) as nat) is Err);
    lemma_load_error_persists(lines, cat, (i + 1) as nat, lines.len());
}

proof fn lemma_lookup_push<V>(s: Seq<(Seq<char>, V)>, k: Seq<char>, v: V)
    ensures
        lookup(s.push((k, v)), k) == Some(v),
{
    assert(s.push((k, v)).last() == (k, v));
}

/// `WRITE_VAR x` followed at once by `READ_VAR x`, when neither faults,
/// leaves on top of the stack the value that was on top before the write.
pub proof fn write_then_read_returns_top(prog: Seq<InstrView>, s: VmState, name: Seq<char>)
    requires
        0 <= s.pc,
        s.pc + 1 < prog.len(),
        prog[s.pc] == InstrView::WriteVar(name),
        prog[s.pc + 1] == InstrView::ReadVar(name),
        step(prog, s) is Next,
        step(prog, step(prog, s)->Next_0) is Next,
    ensures
        s.stack.len() > 0,
        step(prog, step(prog, s)->Next_0)->Next_0.stack.last() == s.stack.last(),
{
    let t = step(prog, s)->Next_0;
    let n = s.stack.len();
    match lookup(s.vars, name) {
        None => {
            lemma_lookup_push(s.vars, name, (n - 1) as usize);
        },
        Some(idx) => {},
    }
    assert(t.pc == s.pc + 1);
    assert(read_var(t, name) == Ok::<i64, Fault>(s.stack.last()));
}

/// An arithmetic instruction with fewer than two values on the stack, or
/// `RETURN_VALUE` on an empty stack, faults with a stack underflow.
pub proof fn popping_empty_stack_underflows(prog: Seq<InstrView>, s: VmState)
    requires
        0 <= s.pc < prog.len(),
        (arith_of(prog[s.pc]) is Some && s.stack.len() < 2) || (prog[s.pc] == InstrView::Return
            && s.stack.len() == 0),
    ensures
        step(prog, s) == StepResult::Fault(Fault::StackUnderflow),
{
}

/// Pushing onto a full stack (by `LOAD_VAL`, or by a `READ_VAR` whose
/// variable resolves) faults with a stack overflow, and the run stops with
/// the state unchanged.
pub proof fn pushing_full_stack_overflows(prog: Seq<InstrView>, s: VmState, fuel: nat)
    requires
        0 <= s.pc < prog.len(),
        s.stack.len() == STACK_MAX,
        fuel > 0,
        prog[s.pc] is LoadVal || (prog[s.pc] matches InstrView::ReadVar(n) && read_var(s, n) is Ok),
    ensures
        step(prog, s) == StepResult::Fault(Fault::StackOverflow),
        run(prog, s, fuel) == (s.out, Some((Fault::StackOverflow, s.pc))),
{
}

/// The name of the counter of `countdown_program`.
pub open spec fn counter_name() -> Seq<char> {
    seq!['c']
}

/// The loop id of `countdown_program`.
pub open spec fn loop_label() -> Seq<char> {
    seq!['l']
}

/// A loop that counts a variable down from `k` to zero, reporting the
/// counter once per iteration:
/// `LOAD_VAL k; WRITE_VAR c; LOOPW_START l c; READ_VAR c; RETURN_VALUE;
/// LOAD_VAL 1; READ_VAR c; SUBTRACT; WRITE_VAR c; LOOPW_END l; EXIT`.
pub open spec fn countdown_program(k: i64) -> Seq<InstrView> {
    let c = counter_name();
    let l = loop_label();
    seq![
        InstrView::LoadVal(k),
        InstrView::WriteVar(c),
        InstrView::LoopStart(l, c),
        InstrView::ReadVar(c),
        InstrView::Return,
        InstrView::LoadVal(1),
        InstrView::ReadVar(c),
        InstrView::Subtract,
        InstrView::WriteVar(c),
        InstrView::LoopEnd(l),
        InstrView::Exit,
    ]
}

/// `j, j - 1, ..., 1`.
pub open spec fn countdown_values(j: int) -> Seq<i64>
    decreases j,
{
    if j <= 0 {
        Seq::empty()
    } else {
        seq![j as i64] + countdown_values(j - 1)
    }
}

proof fn lemma_countdown_values_len(j: int)
    requires
        j >= 0,
    ensures
        countdown_values(j).len() == j,
    decreases j,
{
    if j > 0 {
        lemma_countdown_values_len(j - 1);
    }
}

proof fn lemma_countdown_markers(k: i64)
    ensures
        first_loop_end(countdown_program(k), loop_label(), 0) == Some(9int),
        first_loop_start(countdown_program(k), loop_label(), 0) == Some(2int),
{
    let p = countdown_program(k);
    let l = loop_label();
    assert(seq!['l'] != seq!['c']) by {
        assert(seq!['l'][0] != seq!['c'][0]);
    }
    assert(first_loop_end(p, l, 9) == Some(9int));
    assert(first_loop_end(p, l, 8) == Some(9int));
    assert(first_loop_end(p, l, 7) == Some(9int));
    assert(first_loop_end(p, l, 6) == Some(9int));
    assert(first_loop_end(p, l, 5) == Some(9int));
    assert(first_loop_end(p, l, 4) == Some(9int));
    assert(first_loop_end(p, l, 3) == Some(9int));
    assert(first_loop_end(p, l, 2) == Some(9int));
    assert(first_loop_end(p, l, 1) == Some(9int));
    assert(first_loop_start(p, l, 2) == Some(2int));
    assert(first_loop_start(p, l, 1) == Some(2int));
}

/// The machine at the loop head with counter value `j` and reports `o`.
pub open spec fn countdown_head(j: i64, o: Seq<i64>) -> VmState {
    VmState { pc: 2, stack: seq![j], vars: seq![(counter_name(), 0usize)], out: o }
}

proof fn lemma_countdown_from_head(k: i64, j: i64, o: Seq<i64>, fuel: nat)
    requires
        0 <= j,
        fuel >= 8 * j + 2,
    ensures
        run(countdown_program(k), countdown_head(j, o), fuel) == (o + countdown_values(j as int), None::<(Fault, int)>),
    decreases j,
{
    let p = countdown_program(k);
    let c = counter_name();
    let s0 = countdown_head(j, o);
    lemma_countdown_markers(k);
    assert(lookup(s0.vars, c) == Some(0usize));
    if j == 0 {
        let s1 = VmState { pc: 10, ..s0 };
        assert(step(p, s0) == StepResult::Next(s1));
        assert(step(p, s1) == StepResult::Halt(s1));
        assert(run(p, s1, (fuel - 1) as nat) == (o, None::<(Fault, int)>));
        assert(o + countdown_values(0) =~= o);
    } else {
        let o2 = o.push(j);
        let s1 = VmState { pc: 3, ..s0 };
        let s2 = VmState { pc: 4, stack: seq![j, j], ..s0 };
        let s3 = VmState { pc: 5, stack: seq![j], out: o2, ..s0 };
        let s4 = VmState { pc: 6, stack: seq![j, 1], out: o2, ..s0 };
        let s5 = VmState { pc: 7, stack: seq![j, 1, j], out: o2, ..s0 };
        let s6 = VmState { pc: 8, stack: seq![j, (j - 1) as i64], out: o2, ..s0 };
        let s7 = VmState { pc: 9, stack: seq![(j - 1) as i64], out: o2, ..s0 };
        let s8 = countdown_head((j - 1) as i64, o2);
        assert(step(p, s0) == StepResult::Next(s1));
        assert(s2.stack =~= s1.stack.push(j));
        assert(step(p, s1) == StepResult::Next(s2));
        assert(s3.stack =~= s2.stack.drop_last());
        assert(step(p, s2) == StepResult::Next(s3));
        assert(s4.stack =~= s3.stack.push(1));
        assert(step(p, s3) == StepResult::Next(s4));
        assert(lookup(s4.vars, c) == Some(0usize));
        assert(s5.stack =~= s4.stack.push(j));
        assert(step(p, s4) == StepResult::Next(s5));
        assert(s6.stack =~= s5.stack.take(1).push((j - 1) as i64));
        assert(step(p, s5) == StepResult::Next(s6));
        assert(lookup(s6.vars, c) == Some(0usize));
        assert(s7.stack =~= s6.stack.drop_last().update(0, s6.stack.last()));
        assert(step(p, s6) == StepResult::Next(s7));
        assert(step(p, s7) == StepResult::Next(s8));
        lemma_countdown_from_head(k, (j - 1) as i64, o2, (fuel - 8) as nat);
        assert(run(p, s7, (fuel - 7) as nat) == run(p, s8, (fuel - 8) as nat));
        assert(run(p, s6, (fuel - 6) as nat) == run(p, s8, (fuel - 8) as nat));
        assert(run(p, s5, (fuel - 5) as nat) == run(p, s8, (fuel - 8) as nat));
        assert(run(p, s4, (fuel - 4) as nat) == run(p, s8, (fuel - 8) as nat));
        assert(run(p, s3, (fuel - 3) as nat) == run(p, s8, (fuel - 8) as nat));
        assert(run(p, s2, (fuel - 2) as nat) == run(p, s8, (fuel - 8) as nat));
        assert(run(p, s1, (fuel - 1) as nat) == run(p, s8, (fuel - 8) as nat));
        assert(run(p, s0, fuel) == run(p, s8, (fuel - 8) as nat));
        assert(o2 + countdown_values(j - 1) =~= o + countdown_values(j as int));
    }
}

/// A loop whose condition variable starts at a positive `k` and is
/// decremented once per iteration runs its body exactly `k` times, then
/// ends: the program reports `k, k - 1, ..., 1` and finishes without a fault.
pub proof fn countdown_loop_runs_k_times(k: i64, fuel: nat)
    requires
        k > 0,
        fuel >= 8 * k + 4,
    ensures
        run(countdown_program(k), initial_state(), fuel) == (countdown_values(k as int), None::<(Fault, int)>),
        countdown_values(k as int).len() == k,
{
    let p = countdown_program(k);
    let s0 = initial_state();
    let s1 = VmState { pc: 1, stack: seq![k], ..s0 };
    let s2 = countdown_head(k, Seq::empty());
    assert(step(p, s0) == StepResult::Next(s1));
    assert(s2.vars =~= s1.vars.push((counter_name(), 0usize)));
    assert(step(p, s1) == StepResult::Next(s2));
    lemma_countdown_from_head(k, k, Seq::empty(), (fuel - 2) as nat);
    assert(run(p, s1, (fuel - 1) as nat) == run(p, s2, (fuel - 2) as nat));
    assert(run(p, s0, fuel) == run(p, s2, (fuel - 2) as nat));
    assert(Seq::<i64>::empty() + countdown_values(k as int) =~= countdown_values(k as int));
    lemma_countdown_values_len(k as int);
}

} // verus!
