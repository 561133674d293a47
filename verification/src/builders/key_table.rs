//! A table from text keys to constant pool indices.
use vstd::prelude::*;
use crate::cp::CPIndex;
use crate::text::chars_eq;

verus! {

/// The map that a list of (key, index) entries stands for: a later entry for a key
/// replaces an earlier one.
pub open spec fn entries_map(s: Seq<(Vec<char>, CPIndex)>) -> Map<Seq<char>, u16>
    decreases s.len(),
{
    if s.len() == 0 {
        Map::empty()
    } else {
        entries_map(s.drop_last()).insert(s.last().0@, s.last().1@)
    }
}

/// The entry at `i` is the last one whose key is `k`, so it gives the value of `k`.
pub proof fn lemma_entries_last(s: Seq<(Vec<char>, CPIndex)>, k: Seq<char>, i: int)
    requires
        0 <= i < s.len(),
        s[i].0@ == k,
        forall|j: int| i < j < s.len() ==> s[j].0@ != k,
    ensures
        entries_map(s).contains_key(k),
        entries_map(s)[k] == s[i].1@,
    decreases s.len(),
{
    if i < s.len() - 1 {
        lemma_entries_last(s.drop_last(), k, i);
    }
}

/// No entry has the key `k`, so the map does not hold it.
pub proof fn lemma_entries_absent(s: Seq<(Vec<char>, CPIndex)>, k: Seq<char>)
    requires
        forall|j: int| 0 <= j < s.len() ==> s[j].0@ != k,
    ensures
        !entries_map(s).contains_key(k),
    decreases s.len(),
{
    if s.len() > 0 {
        lemma_entries_absent(s.drop_last(), k);
    }
}

/// A table from keys (strings, held as their characters) to constant pool indices.
pub struct KeyTable {
    entries: Vec<(Vec<char>, CPIndex)>,
}

impl View for KeyTable {
    type V = Map<Seq<char>, u16>;

    closed spec fn view(&self) -> Map<Seq<char>, u16> {
        entries_map(self.entries@)
    }
}

impl KeyTable {
    /// An empty table.
    pub fn new() -> (t: KeyTable)
        ensures
            t@ == Map::<Seq<char>, u16>::empty(),
    {
        KeyTable { entries: Vec::new() }
    }

    /// The index kept for `key`, if there is one.
    pub fn get(&self, key: &Vec<char>) -> (r: Option<CPIndex>)
        ensures
            match r {
                Some(ind) => self@.contains_key(key@) && self@[key@] == ind@,
                None => !self@.contains_key(key@),
            },
    {
        let mut i: usize = self.entries.len();
        while i > 0
            invariant
                i <= self.entries@.len(),
                forall|j: int| i <= j < self.entries@.len() ==> self.entries@[j].0@ != key@,
            decreases i,
        {
            i = i - 1;
            if chars_eq(&self.entries[i].0, key) {
                proof {
                    lemma_entries_last(self.entries@, key@, i as int);
                }
                return Some(self.entries[i].1);
            }
        }
        proof {
            lemma_entries_absent(self.entries@, key@);
        }
        None
    }

    /// Keeps `ind` for `key`, in place of any index kept for it before.
    pub fn insert(&mut self, key: Vec<char>, ind: CPIndex)
        ensures
            final(self)@ == old(self)@.insert(key@, ind@),
    {
        let ghost before = self.entries@;
        self.entries.push((key, ind));
        proof {
            assert(self.entries@.drop_last() =~= before);
        }
    }
}

} // verus!
