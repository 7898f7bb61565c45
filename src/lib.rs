//! A small stack-based virtual machine: a textual instruction set is
//! validated and decoded into a program image, which an interpreter then
//! runs against a bounded operand stack and a table of variables that alias
//! stack slots.
pub mod catalog;
pub mod engine;
pub mod instr;
pub mod laws;
pub mod loader;
pub mod ops;
pub mod text;
