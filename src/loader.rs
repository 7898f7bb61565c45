//! Validation and loading: instruction lines become a program image, or the
//! whole load is rejected.
use vstd::prelude::*;

use crate::catalog::{lookup, InstSet};
use crate::instr::{image_view, InstrView, Instruction};
use crate::text::{parse_i64, parse_i64_spec, same_text, split_words, string_views, words};

verus! {

/// Why a load was rejected, with the index of the offending line.
#[derive(PartialEq, Eq, Structural, Clone, Copy, Debug)]
pub enum LoadError {
    /// The line's first word is missing or is not a known mnemonic.
    UnknownMnemonic { line: usize },
    /// The line has the wrong number of words for its mnemonic.
    WrongOperandCount { line: usize },
    /// A `LOAD_VAL` operand is not a signed 64-bit decimal integer.
    BadLiteral { line: usize },
    /// A `LOOPW_START` names a loop id that no `LOOPW_END` line carries.
    UnmatchedLoop { line: usize },
}

/// The character sequences of the input lines.
pub open spec fn line_views(lines: Seq<&str>) -> Seq<Seq<char>> {
    Seq::new(lines.len(), |i: int| lines[i]@)
}

/// Whether `line` is a `LOOPW_END` marker for loop id `id`.
pub open spec fn is_loop_end_for(line: Seq<char>, id: Seq<char>) -> bool {
    let w = words(line);
    w.len() >= 2 && w[0] == "LOOPW_END"@ && w[1] == id
}

/// Whether some line of the input ends the loop `id`.
pub open spec fn has_loop_end(lines: Seq<Seq<char>>, id: Seq<char>) -> bool {
    exists|j: int| 0 <= j < lines.len() && is_loop_end_for(#[trigger] lines[j], id)
}

/// `ins` when the line has exactly `n` words, else an operand-count error.
pub open spec fn with_count(w: Seq<Seq<char>>, n: nat, ins: InstrView, line: usize) -> Result<
    InstrView,
    LoadError,
> {
    if w.len() == n {
        Ok(ins)
    } else {
        Err(LoadError::WrongOperandCount { line })
    }
}

/// How the line with words `w`, at index `line` of `lines`, decodes against the catalog `cat`.
pub open spec fn decode_spec(
    w: Seq<Seq<char>>,
    lines: Seq<Seq<char>>,
    cat: Seq<(Seq<char>, i8)>,
    line: usize,
) -> Result<InstrView, LoadError> {
    if w.len() == 0 || lookup(cat, w[0]) is None {
        Err(LoadError::UnknownMnemonic { line })
    } else {
        let m = w[0];
        if m == "LOAD_VAL"@ {
            if w.len() != 2 {
                Err(LoadError::WrongOperandCount { line })
            } else {
                match parse_i64_spec(w[1]) {
                    Some(v) => Ok(InstrView::LoadVal(v)),
                    None => Err(LoadError::BadLiteral { line }),
                }
            }
        } else if m == "READ_VAR"@ {
            with_count(w, 2, InstrView::ReadVar(w[1]), line)
        } else if m == "WRITE_VAR"@ {
            with_count(w, 2, InstrView::WriteVar(w[1]), line)
        } else if m == "LOOPW_END"@ {
            with_count(w, 2, InstrView::LoopEnd(w[1]), line)
        } else if m == "ADD"@ {
            with_count(w, 1, InstrView::Add, line)
        } else if m == "SUBTRACT"@ {
            with_count(w, 1, InstrView::Subtract, line)
        } else if m == "MULTIPLY"@ {
            with_count(w, 1, InstrView::Multiply, line)
        } else if m == "DIVIDE"@ {
            with_count(w, 1, InstrView::Divide, line)
        } else if m == "RETURN_VALUE"@ {
            with_count(w, 1, InstrView::Return, line)
        } else if m == "EXIT"@ {
            with_count(w, 1, InstrView::Exit, line)
        } else if m == "LOOPW_START"@ {
            if w.len() != 3 {
                Err(LoadError::WrongOperandCount { line })
            } else if has_loop_end(lines, w[1]) {
                Ok(InstrView::LoopStart(w[1], w[2]))
            } else {
                Err(LoadError::UnmatchedLoop { line })
            }
        } else {
            Err(LoadError::UnknownMnemonic { line })
        }
    }
}

/// The result of loading the first `n` lines: their decoded instructions,
/// or the error of the first line that fails.
pub open spec fn load_upto(lines: Seq<Seq<char>>, cat: Seq<(Seq<char>, i8)>, n: nat) -> Result<
    Seq<InstrView>,
    LoadError,
>
    decreases n,
{
    if n == 0 {
        Ok(Seq::empty())
    } else {
        match load_upto(lines, cat, (n - 1) as nat) {
            Err(e) => Err(e),
            Ok(p) => match decode_spec(words(lines[n - 1]), lines, cat, (n - 1) as usize) {
                Ok(ins) => Ok(p.push(ins)),
                Err(e) => Err(e),
            },
        }
    }
}

/// The result of loading all of `lines` against the catalog `cat`.
pub open spec fn load_spec(lines: Seq<Seq<char>>, cat: Seq<(Seq<char>, i8)>) -> Result<
    Seq<InstrView>,
    LoadError,
> {
    load_upto(lines, cat, lines.len())
}

/// Once a prefix of the lines fails, every longer prefix fails the same way.
pub proof fn lemma_load_error_persists(
    lines: Seq<Seq<char>>,
    cat: Seq<(Seq<char>, i8)>,
    k: nat,
    n: nat,
)
    requires
        k <= n,
        load_upto(lines, cat, k) is Err,
    ensures
        load_upto(lines, cat, n) == load_upto(lines, cat, k),
    decreases n - k,
{
    if k < n {
        lemma_load_error_persists(lines, cat, k, (n - 1) as nat);
    }
}

fn find_loop_end(lines: &[&str], id: &str) -> (r: bool)
    ensures
        r == has_loop_end(line_views(lines@), id@),
{
    let mut j: usize = 0;
    while j < lines.len()
        invariant
            j <= lines@.len(),
            forall|k: int| 0 <= k < j ==> !is_loop_end_for(#[trigger] line_views(lines@)[k], id@),
        decreases lines@.len() - j,
    {
        let w = split_words(lines[j]);
        assert(line_views(lines@)[j as int] == lines@[j as int]@);
        assert(string_views(w@).len() == w@.len());
        if w.len() >= 2 {
            assert(string_views(w@)[0] == w@[0]@);
            assert(string_views(w@)[1] == w@[1]@);
            if same_text(w[0].as_str(), "LOOPW_END") && same_text(w[1].as_str(), id) {
                assert(is_loop_end_for(line_views(lines@)[j as int], id@));
                return true;
            }
        }
        j = j + 1;
    }
    false
}

fn decode_line(line: &str, lines: &[&str], iset: &InstSet, idx: usize) -> (r: Result<
    Instruction,
    LoadError,
>)
    ensures
        match r {
            Ok(ins) => decode_spec(words(line@), line_views(lines@), iset@, idx) == Ok::<
                InstrView,
                LoadError,
            >(ins@),
            Err(e) => decode_spec(words(line@), line_views(lines@), iset@, idx) == Err::<
                InstrView,
                LoadError,
            >(e),
        },
{
    let w = split_words(line);
    let ghost wv = words(line@);
    assert(wv.len() == w@.len());
    assert(forall|i: int| 0 <= i < w@.len() ==> wv[i] == (#[trigger] w@[i])@);
    if w.len() == 0 {
        return Err(LoadError::UnknownMnemonic { line: idx });
    }
    let m = w[0].as_str();
    if iset.arity(m).is_none() {
        return Err(LoadError::UnknownMnemonic { line: idx });
    }
    let n = w.len();
    if same_text(m, "LOAD_VAL") {
        if n != 2 {
            Err(LoadError::WrongOperandCount { line: idx })
        } else {
            match parse_i64(w[1].as_str()) {
                Some(v) => Ok(Instruction::LoadVal(v)),
                None => Err(LoadError::BadLiteral { line: idx }),
            }
        }
    } else if same_text(m, "READ_VAR") {
        if n != 2 {
            Err(LoadError::WrongOperandCount { line: idx })
        } else {
            Ok(Instruction::ReadVar(w[1].clone()))
        }
    } else if same_text(m, "WRITE_VAR") {
        if n != 2 {
            Err(LoadError::WrongOperandCount { line: idx })
        } else {
            Ok(Instruction::WriteVar(w[1].clone()))
        }
    } else if same_text(m, "LOOPW_END") {
        if n != 2 {
            Err(LoadError::WrongOperandCount { line: idx })
        } else {
            Ok(Instruction::LoopEnd(w[1].clone()))
        }
    } else if same_text(m, "ADD") {
        if n != 1 {
            Err(LoadError::WrongOperandCount { line: idx })
        } else {
            Ok(Instruction::Add)
        }
    } else if same_text(m, "SUBTRACT") {
        if n != 1 {
            Err(LoadError::WrongOperandCount { line: idx })
        } else {
            Ok(Instruction::Subtract)
        }
    } else if same_text(m, "MULTIPLY") {
        if n != 1 {
            Err(LoadError::WrongOperandCount { line: idx })
        } else {
            Ok(Instruction::Multiply)
        }
    } else if same_text(m, "DIVIDE") {
        if n != 1 {
            Err(LoadError::WrongOperandCount { line: idx })
        } else {
            Ok(Instruction::Divide)
        }
    } else if same_text(m, "RETURN_VALUE") {
        if n != 1 {
            Err(LoadError::WrongOperandCount { line: idx })
        } else {
            Ok(Instruction::Return)
        }
    } else if same_text(m, "EXIT") {
        if n != 1 {
            Err(LoadError::WrongOperandCount { line: idx })
        } else {
            Ok(Instruction::Exit)
        }
    } else if same_text(m, "LOOPW_START") {
        if n != 3 {
            Err(LoadError::WrongOperandCount { line: idx })
        } else if find_loop_end(lines, w[1].as_str()) {
            Ok(Instruction::LoopStart(w[1].clone(), w[2].clone()))
        } else {
            Err(LoadError::UnmatchedLoop { line: idx })
        }
    } else {
        Err(LoadError::UnknownMnemonic { line: idx })
    }
}

/// Validates `prog` line by line against the catalog `iset` and decodes it
/// into a program image. Loading is all-or-nothing: the first line that
/// fails rejects the whole program.
pub fn validate_and_load_prog(prog: &[&str], iset: &InstSet) -> (r: Result<
    Vec<Instruction>,
    LoadError,
>)
    ensures
        match r {
            Ok(p) => load_spec(line_views(prog@), iset@) == Ok::<Seq<InstrView>, LoadError>(
                image_view(p@),
            ),
            Err(e) => load_spec(line_views(prog@), iset@) == Err::<Seq<InstrView>, LoadError>(e),
        },
{
    let ghost lv = line_views(prog@);
    let mut image: Vec<Instruction> = Vec::new();
    let mut i: usize = 0;
    assert(image_view(image@) =~= Seq::<InstrView>::empty());
    while i < prog.len()
        invariant
            i <= prog@.len(),
            lv == line_views(prog@),
            load_upto(lv, iset@, i as nat) == Ok::<Seq<InstrView>, LoadError>(image_view(image@)),
        decreases prog@.len() - i,
    {
        assert(lv[i as int] == prog@[i as int]@);
        match decode_line(prog[i], prog, iset, i) {
            Ok(ins) => {
                let ghost before = image@;
                image.push(ins);
                assert(image_view(image@) =~= image_view(before).push(ins@));
            },
            Err(e) => {
                proof {
                    lemma_load_error_persists(lv, iset@, (i + 1) as nat, lv.len());
                }
                return Err(e);
            },
        }
        i = i + 1;
    }
    Ok(image)
}

} // verus!
