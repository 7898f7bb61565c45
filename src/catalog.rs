//! The instruction catalog: a table from mnemonic to the number of stack
//! values the instruction consumes.
use vstd::prelude::*;

verus! {

/// The value bound to `k` in a table of named entries; a later entry for
/// the same name shadows an earlier one.
pub open spec fn lookup<V>(s: Seq<(Seq<char>, V)>, k: Seq<char>) -> Option<V>
    decreases s.len(),
{
    if s.len() == 0 {
        None
    } else if s.last().0 == k {
        Some(s.last().1)
    } else {
        lookup(s.drop_last(), k)
    }
}

/// Looks `k` up in a table of named entries, as `lookup` describes.
pub fn find_entry<V: Copy>(entries: &Vec<(String, V)>, k: &str) -> (r: Option<V>)
    ensures
        r == lookup(entry_views(entries@), k@),
{
    let mut i: usize = entries.len();
    assert(entry_views(entries@).take(i as int) =~= entry_views(entries@));
    while i > 0
        invariant
            i <= entries@.len(),
            lookup(entry_views(entries@), k@) == lookup(entry_views(entries@).take(i as int), k@),
        decreases i,
    {
        let ghost t = entry_views(entries@).take(i as int);
        assert(t.drop_last() == entry_views(entries@).take(i - 1));
        if crate::text::same_text(entries[i - 1].0.as_str(), k) {
            return Some(entries[i - 1].1);
        }
        i = i - 1;
    }
    assert(entry_views(entries@).take(0) == Seq::<(Seq<char>, V)>::empty());
    None
}

/// The names of a table of entries taken as character sequences.
pub open spec fn entry_views<V>(s: Seq<(String, V)>) -> Seq<(Seq<char>, V)> {
    Seq::new(s.len(), |i: int| (s[i].0@, s[i].1))
}

/// The fixed instruction set: how many stack values each mnemonic consumes.
pub open spec fn standard_arity(k: Seq<char>) -> Option<i8> {
    if k == "EXIT"@ {
        Some(0)
    } else if k == "LOOPW_END"@ {
        Some(0)
    } else if k == "LOOPW_START"@ {
        Some(2)
    } else if k == "RETURN_VALUE"@ {
        Some(0)
    } else if k == "MULTIPLY"@ {
        Some(2)
    } else if k == "DIVIDE"@ {
        Some(2)
    } else if k == "SUBTRACT"@ {
        Some(2)
    } else if k == "ADD"@ {
        Some(2)
    } else if k == "WRITE_VAR"@ {
        Some(0)
    } else if k == "READ_VAR"@ {
        Some(0)
    } else if k == "LOAD_VAL"@ {
        Some(0)
    } else {
        None
    }
}

/// A catalog of mnemonics and their arities.
pub struct InstSet {
    entries: Vec<(String, i8)>,
}

impl View for InstSet {
    type V = Seq<(Seq<char>, i8)>;

    closed spec fn view(&self) -> Seq<(Seq<char>, i8)> {
        entry_views(self.entries@)
    }
}

impl InstSet {
    /// The arity the catalog gives to `mnemonic`, if any.
    pub open spec fn arity_of(&self, mnemonic: Seq<char>) -> Option<i8> {
        lookup(self@, mnemonic)
    }

    /// An empty catalog.
    pub fn new() -> (r: InstSet)
        ensures
            forall|k: Seq<char>| #[trigger] r.arity_of(k) is None,
    {
        let r = InstSet { entries: Vec::new() };
        assert(r@ =~= Seq::<(Seq<char>, i8)>::empty());
        r
    }

    /// Binds `mnemonic` to `arity`, replacing any earlier binding.
    pub fn insert(&mut self, mnemonic: String, arity: i8)
        ensures
            forall|k: Seq<char>| #[trigger]
                final(self).arity_of(k) == if k == mnemonic@ {
                    Some(arity)
                } else {
                    old(self).arity_of(k)
                },
    {
        let ghost m = mnemonic@;
        self.entries.push((mnemonic, arity));
        assert(self@.drop_last() =~= old(self)@);
        assert(self@.last() == (m, arity));
    }

    /// The arity of `mnemonic`, or `None` if the catalog does not hold it.
    pub fn arity(&self, mnemonic: &str) -> (r: Option<i8>)
        ensures
            r == self.arity_of(mnemonic@),
    {
        find_entry(&self.entries, mnemonic)
    }
}

/// Fills `set` with the fixed instruction set.
pub fn init_inst_set(set: &mut InstSet)
    ensures
        forall|k: Seq<char>| #[trigger]
            final(set).arity_of(k) == match standard_arity(k) {
                Some(a) => Some(a),
                None => old(set).arity_of(k),
            },
{
    set.insert("LOAD_VAL".to_owned(), 0);
    set.insert("READ_VAR".to_owned(), 0);
    set.insert("WRITE_VAR".to_owned(), 0);
    set.insert("ADD".to_owned(), 2);
    set.insert("SUBTRACT".to_owned(), 2);
    set.insert("DIVIDE".to_owned(), 2);
    set.insert("MULTIPLY".to_owned(), 2);
    set.insert("RETURN_VALUE".to_owned(), 0);
    set.insert("LOOPW_START".to_owned(), 2);
    set.insert("LOOPW_END".to_owned(), 0);
    set.insert("EXIT".to_owned(), 0);
}

/// A catalog holding exactly the fixed instruction set.
pub fn standard_inst_set() -> (r: InstSet)
    ensures
        forall|k: Seq<char>| #[trigger] r.arity_of(k) == standard_arity(k),
{
    let mut r = InstSet::new();
    init_inst_set(&mut r);
    r
}

} // verus!
