use stack_vm::catalog::standard_inst_set;
use stack_vm::engine::{execute_prog, ExecResult, Fault, STACK_MAX};
use stack_vm::instr::Instruction;
use stack_vm::loader::{validate_and_load_prog, LoadError};

const BUDGET: u64 = 10_000;

fn load(lines: &[&str]) -> Result<Vec<Instruction>, LoadError> {
    let set = standard_inst_set();
    validate_and_load_prog(lines, &set)
}

fn run_lines(lines: &[&str], budget: u64) -> ExecResult {
    let image = load(lines).expect("program loads");
    execute_prog(&image, budget)
}

#[test]
fn two_variables_scenario_reports_twelve() {
    let lines = [
        "LOAD_VAL 5",
        "WRITE_VAR x",
        "LOAD_VAL 2",
        "WRITE_VAR y",
        "READ_VAR x",
        "LOAD_VAL 1",
        "ADD",
        "READ_VAR y",
        "MULTIPLY",
        "RETURN_VALUE",
    ];
    let r = run_lines(&lines, BUDGET);
    assert_eq!(r.outputs, vec![12]);
    assert!(r.succeeded());
}

#[test]
fn loop_that_never_ends_hits_step_budget() {
    let lines = [
        "LOAD_VAL 5",
        "WRITE_VAR x",
        "LOAD_VAL 2",
        "WRITE_VAR y",
        "READ_VAR x",
        "LOAD_VAL 1",
        "ADD",
        "READ_VAR y",
        "MULTIPLY",
        "RETURN_VALUE",
        "LOAD_VAL 1",
        "WRITE_VAR y",
        "LOAD_VAL 1",
        "WRITE_VAR z",
        "LOOPW_START myid z",
        "READ_VAR y",
        "LOAD_VAL 1",
        "ADD",
        "WRITE_VAR y",
        "LOOPW_END myid",
        "EXIT",
    ];
    let r = run_lines(&lines, 1000);
    assert_eq!(r.outputs, vec![12]);
    let (fault, at) = r.fault.expect("the budget runs out");
    assert_eq!(fault, Fault::StepLimitReached);
    assert_eq!(at, 16);
}

#[test]
fn unknown_mnemonic_rejects_whole_program() {
    let lines = ["LOAD_VAL 1", "PUSH 2", "RETURN_VALUE"];
    assert_eq!(load(&lines), Err(LoadError::UnknownMnemonic { line: 1 }));
}

#[test]
fn empty_line_is_rejected() {
    assert_eq!(load(&["LOAD_VAL 1", "   "]), Err(LoadError::UnknownMnemonic { line: 1 }));
}

#[test]
fn wrong_operand_counts_are_rejected() {
    assert_eq!(load(&["LOAD_VAL"]), Err(LoadError::WrongOperandCount { line: 0 }));
    assert_eq!(load(&["LOAD_VAL 1", "ADD 2"]), Err(LoadError::WrongOperandCount { line: 1 }));
    assert_eq!(
        load(&["LOOPW_START a", "LOOPW_END a"]),
        Err(LoadError::WrongOperandCount { line: 0 })
    );
    assert_eq!(load(&["EXIT now"]), Err(LoadError::WrongOperandCount { line: 0 }));
}

#[test]
fn bad_literals_are_rejected() {
    assert_eq!(load(&["LOAD_VAL abc"]), Err(LoadError::BadLiteral { line: 0 }));
    assert_eq!(
        load(&["LOAD_VAL 9223372036854775808"]),
        Err(LoadError::BadLiteral { line: 0 })
    );
    assert_eq!(load(&["LOAD_VAL -"]), Err(LoadError::BadLiteral { line: 0 }));
}

#[test]
fn unmatched_loop_is_rejected() {
    let lines = ["LOAD_VAL 1", "WRITE_VAR c", "LOOPW_START a c", "LOOPW_END b"];
    assert_eq!(load(&lines), Err(LoadError::UnmatchedLoop { line: 2 }));
}

#[test]
fn first_failing_line_decides_the_error() {
    let lines = ["ADD 1", "NOPE"];
    assert_eq!(load(&lines), Err(LoadError::WrongOperandCount { line: 0 }));
}

#[test]
fn loading_twice_gives_identical_images() {
    let lines = ["LOAD_VAL 7", "WRITE_VAR a", "LOOPW_START l a", "LOOPW_END l", "EXIT"];
    let first = load(&lines);
    let second = load(&lines);
    assert!(first.is_ok());
    assert_eq!(first, second);
}

#[test]
fn decoded_image_holds_operands() {
    let image = load(&["LOAD_VAL -3", "READ_VAR v", "LOOPW_START id v", "LOOPW_END id", "DIVIDE"]).unwrap();
    assert_eq!(
        image,
        vec![
            Instruction::LoadVal(-3),
            Instruction::ReadVar("v".to_string()),
            Instruction::LoopStart("id".to_string(), "v".to_string()),
            Instruction::LoopEnd("id".to_string()),
            Instruction::Divide,
        ]
    );
}

#[test]
fn whitespace_runs_separate_words() {
    let image = load(&["  LOAD_VAL \t 4 ", "RETURN_VALUE"]).unwrap();
    assert_eq!(image, vec![Instruction::LoadVal(4), Instruction::Return]);
}

#[test]
fn straight_line_arithmetic() {
    let r = run_lines(
        &["LOAD_VAL 2", "LOAD_VAL 3", "ADD", "LOAD_VAL 4", "MULTIPLY", "RETURN_VALUE"],
        BUDGET,
    );
    assert_eq!(r.outputs, vec![20]);
    assert!(r.succeeded());
}

#[test]
fn subtraction_takes_first_popped_minus_second() {
    let r = run_lines(&["LOAD_VAL 10", "LOAD_VAL 3", "SUBTRACT", "RETURN_VALUE"], BUDGET);
    assert_eq!(r.outputs, vec![-7]);
}

#[test]
fn division_takes_first_popped_over_second_toward_zero() {
    let r = run_lines(
        &["LOAD_VAL 2", "LOAD_VAL 7", "DIVIDE", "RETURN_VALUE", "LOAD_VAL 2", "LOAD_VAL -7", "DIVIDE", "RETURN_VALUE"],
        BUDGET,
    );
    assert_eq!(r.outputs, vec![3, -3]);
}

#[test]
fn several_returns_are_reported_in_order() {
    let r = run_lines(&["LOAD_VAL 1", "LOAD_VAL 2", "RETURN_VALUE", "RETURN_VALUE"], BUDGET);
    assert_eq!(r.outputs, vec![2, 1]);
    assert_eq!(r.fault, None);
}

#[test]
fn division_by_zero_faults() {
    let r = run_lines(&["LOAD_VAL 0", "LOAD_VAL 5", "DIVIDE"], BUDGET);
    assert_eq!(r.fault, Some((Fault::DivisionByZero, 2)));
}

#[test]
fn overflowing_arithmetic_faults() {
    let r = run_lines(&["LOAD_VAL 9223372036854775807", "LOAD_VAL 1", "ADD"], BUDGET);
    assert_eq!(r.fault, Some((Fault::ArithmeticOverflow, 2)));
    let r = run_lines(&["LOAD_VAL -1", "LOAD_VAL -9223372036854775808", "DIVIDE"], BUDGET);
    assert_eq!(r.fault, Some((Fault::ArithmeticOverflow, 2)));
}

#[test]
fn add_on_one_value_underflows() {
    let r = run_lines(&["LOAD_VAL 1", "ADD"], BUDGET);
    assert_eq!(r.fault, Some((Fault::StackUnderflow, 1)));
    assert!(!r.succeeded());
}

#[test]
fn return_on_empty_stack_underflows() {
    let r = run_lines(&["RETURN_VALUE"], BUDGET);
    assert_eq!(r.fault, Some((Fault::StackUnderflow, 0)));
    assert!(r.outputs.is_empty());
}

#[test]
fn write_on_empty_stack_underflows() {
    let r = run_lines(&["WRITE_VAR x"], BUDGET);
    assert_eq!(r.fault, Some((Fault::StackUnderflow, 0)));
}

#[test]
fn pushing_on_full_stack_overflows() {
    let mut lines: Vec<&str> = Vec::new();
    for _ in 0..STACK_MAX {
        lines.push("LOAD_VAL 1");
    }
    lines.push("RETURN_VALUE");
    let r = run_lines(&lines, BUDGET);
    assert_eq!(r.fault, None);
    assert_eq!(r.outputs, vec![1]);

    lines.pop();
    lines.push("LOAD_VAL 2");
    let r = run_lines(&lines, BUDGET);
    assert_eq!(r.fault, Some((Fault::StackOverflow, STACK_MAX)));
}

#[test]
fn read_on_full_stack_overflows() {
    let mut lines: Vec<&str> = vec!["LOAD_VAL 3", "WRITE_VAR a"];
    for _ in 1..STACK_MAX {
        lines.push("LOAD_VAL 1");
    }
    lines.push("READ_VAR a");
    let r = run_lines(&lines, BUDGET);
    assert_eq!(r.fault, Some((Fault::StackOverflow, STACK_MAX + 1)));
}

#[test]
fn reading_unbound_variable_faults() {
    let r = run_lines(&["READ_VAR q"], BUDGET);
    assert_eq!(r.fault, Some((Fault::UnknownVariable, 0)));
}

#[test]
fn variable_whose_slot_was_popped_is_out_of_scope() {
    let r = run_lines(&["LOAD_VAL 4", "WRITE_VAR a", "RETURN_VALUE", "READ_VAR a"], BUDGET);
    assert_eq!(r.outputs, vec![4]);
    assert_eq!(r.fault, Some((Fault::VariableOutOfScope, 3)));
}

#[test]
fn write_to_variable_aliasing_the_top_is_out_of_scope() {
    let r = run_lines(&["LOAD_VAL 4", "WRITE_VAR a", "WRITE_VAR a"], BUDGET);
    assert_eq!(r.fault, Some((Fault::VariableOutOfScope, 2)));
}

#[test]
fn write_then_read_gives_the_top_value() {
    let r = run_lines(&["LOAD_VAL 9", "WRITE_VAR a", "READ_VAR a", "RETURN_VALUE"], BUDGET);
    assert_eq!(r.outputs, vec![9]);
    let r = run_lines(
        &["LOAD_VAL 1", "WRITE_VAR a", "LOAD_VAL 6", "LOAD_VAL 8", "WRITE_VAR a", "READ_VAR a", "RETURN_VALUE", "RETURN_VALUE", "RETURN_VALUE"],
        BUDGET,
    );
    assert_eq!(r.outputs, vec![8, 6, 8]);
    assert!(r.succeeded());
}

#[test]
fn countdown_loop_runs_initial_value_times() {
    let lines = [
        "LOAD_VAL 3",
        "WRITE_VAR c",
        "LOOPW_START l c",
        "READ_VAR c",
        "RETURN_VALUE",
        "LOAD_VAL 1",
        "READ_VAR c",
        "SUBTRACT",
        "WRITE_VAR c",
        "LOOPW_END l",
        "EXIT",
    ];
    let r = run_lines(&lines, BUDGET);
    assert_eq!(r.outputs, vec![3, 2, 1]);
    assert!(r.succeeded());
    let r = run_lines(&lines, 8 * 3 + 4);
    assert!(r.succeeded());
    let r = run_lines(&lines, 8 * 3 + 3);
    assert_eq!(r.fault, Some((Fault::StepLimitReached, 10)));
}

#[test]
fn loop_with_false_condition_skips_body() {
    let lines = [
        "LOAD_VAL 0",
        "WRITE_VAR c",
        "LOOPW_START l c",
        "LOAD_VAL 42",
        "RETURN_VALUE",
        "LOOPW_END l",
        "LOAD_VAL 7",
        "RETURN_VALUE",
    ];
    let r = run_lines(&lines, BUDGET);
    assert_eq!(r.outputs, vec![7]);
    assert!(r.succeeded());
}

#[test]
fn loop_condition_on_unbound_variable_faults() {
    let r = run_lines(&["LOOPW_START l c", "LOOPW_END l"], BUDGET);
    assert_eq!(r.fault, Some((Fault::UnknownVariable, 0)));
}

#[test]
fn loop_end_without_start_faults() {
    let r = run_lines(&["LOOPW_END l"], BUDGET);
    assert_eq!(r.fault, Some((Fault::UnmatchedLoop, 0)));
}

#[test]
fn exit_halts_with_values_left_on_stack() {
    let r = run_lines(&["LOAD_VAL 1", "EXIT", "RETURN_VALUE"], BUDGET);
    assert!(r.outputs.is_empty());
    assert!(r.succeeded());
}

#[test]
fn empty_program_succeeds() {
    let r = run_lines(&[], BUDGET);
    assert!(r.outputs.is_empty());
    assert!(r.succeeded());
}

#[test]
fn zero_budget_stops_before_first_step() {
    let r = run_lines(&["LOAD_VAL 1"], 0);
    assert_eq!(r.fault, Some((Fault::StepLimitReached, 0)));
}
