use std::collections::VecDeque;

use stack_vm::catalog::{init_inst_set, standard_inst_set, InstSet};
use stack_vm::engine::{apply_arith, ArithOp, Fault};
use stack_vm::instr::{Instruct, Instruction, Instructions, Operands};
use stack_vm::ops::{Add, Div, LoadVal, Mul, ReadVar, Sub, WriteVar};
use stack_vm::text::{parse_i64, same_text, split_words};

#[test]
fn catalog_gives_arities() {
    let set = standard_inst_set();
    assert_eq!(set.arity("ADD"), Some(2));
    assert_eq!(set.arity("LOOPW_START"), Some(2));
    assert_eq!(set.arity("LOAD_VAL"), Some(0));
    assert_eq!(set.arity("EXIT"), Some(0));
    assert_eq!(set.arity("add"), None);
    assert_eq!(set.arity(""), None);
}

#[test]
fn init_fills_an_empty_catalog() {
    let mut set = InstSet::new();
    assert_eq!(set.arity("DIVIDE"), None);
    init_inst_set(&mut set);
    assert_eq!(set.arity("DIVIDE"), Some(2));
    assert_eq!(set.arity("RETURN_VALUE"), Some(0));
}

#[test]
fn catalog_insert_replaces() {
    let mut set = InstSet::new();
    set.insert("X".to_string(), 1);
    set.insert("Y".to_string(), 2);
    set.insert("X".to_string(), 3);
    assert_eq!(set.arity("X"), Some(3));
    assert_eq!(set.arity("Y"), Some(2));
}

#[test]
fn words_split_on_whitespace() {
    assert_eq!(split_words("  a  bc\td \n"), vec!["a".to_string(), "bc".to_string(), "d".to_string()]);
    assert!(split_words("   ").is_empty());
    assert!(split_words("").is_empty());
}

#[test]
fn text_comparison() {
    assert!(same_text("ADD", "ADD"));
    assert!(!same_text("ADD", "AD"));
    assert!(!same_text("ADD", "ADE"));
}

#[test]
fn literals_parse_like_i64() {
    assert_eq!(parse_i64("42"), Some(42));
    assert_eq!(parse_i64("+42"), Some(42));
    assert_eq!(parse_i64("-0"), Some(0));
    assert_eq!(parse_i64("-9223372036854775808"), Some(i64::MIN));
    assert_eq!(parse_i64("9223372036854775807"), Some(i64::MAX));
    assert_eq!(parse_i64("9223372036854775808"), None);
    assert_eq!(parse_i64("-9223372036854775809"), None);
    assert_eq!(parse_i64("12a"), None);
    assert_eq!(parse_i64(""), None);
    assert_eq!(parse_i64("+"), None);
}

#[test]
fn arithmetic_results_and_faults() {
    assert_eq!(apply_arith(ArithOp::Add, 2, 3), Ok(5));
    assert_eq!(apply_arith(ArithOp::Subtract, 2, 3), Ok(-1));
    assert_eq!(apply_arith(ArithOp::Multiply, -4, 3), Ok(-12));
    assert_eq!(apply_arith(ArithOp::Divide, -9, 2), Ok(-4));
    assert_eq!(apply_arith(ArithOp::Divide, 9, 0), Err(Fault::DivisionByZero));
    assert_eq!(apply_arith(ArithOp::Multiply, i64::MAX, 2), Err(Fault::ArithmeticOverflow));
    assert_eq!(apply_arith(ArithOp::Subtract, i64::MIN, 1), Err(Fault::ArithmeticOverflow));
}

#[test]
fn instruction_operands_record() {
    let ops = Instruction::LoopStart("l".to_string(), "c".to_string()).operands();
    assert_eq!(
        ops,
        Operands { opdval1: None, opdval2: None, opdname1: Some("l".to_string()), opdname2: Some("c".to_string()) }
    );
    let ops = Instruction::LoadVal(8).operands();
    assert_eq!(ops.opdval1, Some(8));
    assert_eq!(ops.opdname1, None);
    let ops = Instruction::Exit.operands();
    assert_eq!(ops, Operands { opdval1: None, opdval2: None, opdname1: None, opdname2: None });
}

#[test]
fn instruct_keeps_kind() {
    assert_eq!(Instruct::new(Instructions::Mul).kind, Instructions::Mul);
}

#[test]
fn load_val_pushes() {
    let v = LoadVal::new(11);
    assert_eq!(v.literal(), 11);
    let mut stack: VecDeque<i64> = VecDeque::new();
    LoadVal::PUSH(&mut stack, v.literal());
    ReadVar::PUSH(&mut stack, 12);
    assert_eq!(stack, VecDeque::from(vec![11, 12]));
    let r = ReadVar::new("a".to_string(), 3);
    assert_eq!((r.varname.as_str(), r.value), ("a", 3));
}

#[test]
fn write_var_pops() {
    let w = WriteVar::new("b".to_string(), 4);
    assert_eq!(w.value, 4);
    let mut stack: VecDeque<i64> = VecDeque::from(vec![1, 2]);
    assert_eq!(WriteVar::POP(&mut stack), Some(2));
    assert_eq!(WriteVar::POP(&mut stack), Some(1));
    assert_eq!(WriteVar::POP(&mut stack), None);
}

#[test]
fn compute_pops_two_and_records() {
    let mut stack: VecDeque<i64> = VecDeque::from(vec![9, 10, 3]);
    let mut add = Add::new();
    assert_eq!(add.opcount, 2);
    assert_eq!(add.COMPUTE(&mut stack), Ok(13));
    assert_eq!(add.result, 13);
    assert_eq!(stack, VecDeque::from(vec![9]));

    let mut stack: VecDeque<i64> = VecDeque::from(vec![10, 3]);
    let mut sub = Sub::new();
    assert_eq!(sub.COMPUTE(&mut stack), Ok(-7));
    assert_eq!(sub.result, -7);

    let mut stack: VecDeque<i64> = VecDeque::from(vec![6, -7]);
    let mut mul = Mul::new();
    assert_eq!(mul.COMPUTE(&mut stack), Ok(-42));

    let mut stack: VecDeque<i64> = VecDeque::from(vec![2, 7]);
    let mut div = Div::new();
    assert_eq!(div.COMPUTE(&mut stack), Ok(3));
    assert!(stack.is_empty());
}

#[test]
fn compute_failures_leave_stack() {
    let mut stack: VecDeque<i64> = VecDeque::from(vec![5]);
    let mut add = Add::new();
    assert!(add.COMPUTE(&mut stack).is_err());
    assert_eq!(stack, VecDeque::from(vec![5]));
    assert_eq!(add.result, 0);

    let mut stack: VecDeque<i64> = VecDeque::from(vec![0, 5]);
    let mut div = Div::new();
    assert!(div.COMPUTE(&mut stack).is_err());
    assert_eq!(stack, VecDeque::from(vec![0, 5]));
    div.display();
}
