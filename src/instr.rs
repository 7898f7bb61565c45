//! Decoded instructions: the entries of a program image.
use vstd::prelude::*;

verus! {

/// One decoded instruction, carrying only the operands it needs.
#[derive(PartialEq, Eq, Debug)]
pub enum Instruction {
    LoadVal(i64),
    ReadVar(String),
    WriteVar(String),
    Add,
    Subtract,
    Multiply,
    Divide,
    Return,
    /// A while-loop head: the label of its end marker and the condition variable.
    LoopStart(String, String),
    /// A while-loop end: the label of its start marker.
    LoopEnd(String),
    Exit,
}

/// The mathematical value of a decoded instruction: names as character sequences.
pub enum InstrView {
    LoadVal(i64),
    ReadVar(Seq<char>),
    WriteVar(Seq<char>),
    Add,
    Subtract,
    Multiply,
    Divide,
    Return,
    LoopStart(Seq<char>, Seq<char>),
    LoopEnd(Seq<char>),
    Exit,
}

impl View for Instruction {
    type V = InstrView;

    open spec fn view(&self) -> InstrView {
        match self {
            Instruction::LoadVal(v) => InstrView::LoadVal(*v),
            Instruction::ReadVar(n) => InstrView::ReadVar(n@),
            Instruction::WriteVar(n) => InstrView::WriteVar(n@),
            Instruction::Add => InstrView::Add,
            Instruction::Subtract => InstrView::Subtract,
            Instruction::Multiply => InstrView::Multiply,
            Instruction::Divide => InstrView::Divide,
            Instruction::Return => InstrView::Return,
            Instruction::LoopStart(e, c) => InstrView::LoopStart(e@, c@),
            Instruction::LoopEnd(s) => InstrView::LoopEnd(s@),
            Instruction::Exit => InstrView::Exit,
        }
    }
}

/// The views of a sequence of instructions.
pub open spec fn image_view(p: Seq<Instruction>) -> Seq<InstrView> {
    Seq::new(p.len(), |i: int| p[i]@)
}

/// The operands of an instruction as a flat record: up to two literals and
/// up to two names.
#[derive(PartialEq, Eq, Debug)]
pub struct Operands {
    pub opdval1: Option<i64>,
    pub opdval2: Option<i64>,
    pub opdname1: Option<String>,
    pub opdname2: Option<String>,
}

impl Instruction {
    /// The operands this instruction carries, as a flat record.
    pub fn operands(&self) -> (r: Operands)
        ensures
            r.opdval1 == (match self@ {
                InstrView::LoadVal(v) => Some(v),
                _ => None,
            }),
            r.opdval2 is None,
            r.opdname1 is Some <==> (self@ is ReadVar || self@ is WriteVar || self@ is LoopStart
                || self@ is LoopEnd),
            r.opdname1 matches Some(n) ==> (match self@ {
                InstrView::ReadVar(x) => n@ == x,
                InstrView::WriteVar(x) => n@ == x,
                InstrView::LoopStart(e, _) => n@ == e,
                InstrView::LoopEnd(s) => n@ == s,
                _ => false,
            }),
            r.opdname2 is Some <==> self@ is LoopStart,
            r.opdname2 matches Some(n) ==> (match self@ {
                InstrView::LoopStart(_, c) => n@ == c,
                _ => false,
            }),
    {
        match self {
            Instruction::LoadVal(v) => Operands {
                opdval1: Some(*v),
                opdval2: None,
                opdname1: None,
                opdname2: None,
            },
            Instruction::ReadVar(n) | Instruction::WriteVar(n) | Instruction::LoopEnd(n) => Operands {
                opdval1: None,
                opdval2: None,
                opdname1: Some(n.clone()),
                opdname2: None,
            },
            Instruction::LoopStart(e, c) => Operands {
                opdval1: None,
                opdval2: None,
                opdname1: Some(e.clone()),
                opdname2: Some(c.clone()),
            },
            _ => Operands { opdval1: None, opdval2: None, opdname1: None, opdname2: None },
        }
    }
}

/// The kinds of operation of the per-operation types in `ops`.
#[derive(PartialEq, Eq, Structural, Clone, Copy, Debug)]
pub enum Instructions {
    Noop,
    LoadVal,
    ReadVar,
    WriteVar,
    Add,
    Sub,
    Mul,
    Div,
    Ret,
}

/// An operation tagged with its kind.
pub struct Instruct {
    pub kind: Instructions,
}

impl Instruct {
    pub fn new(kind: Instructions) -> (r: Self)
        ensures
            r.kind == kind,
    {
        Self { kind }
    }
}

} // verus!
