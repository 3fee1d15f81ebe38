//! The options of a table: a map from option names to their values.

use vstd::prelude::*;
use crate::text::str_eq;

verus! {

/// The map that a list of `(name, value)` pairs stands for: a later pair
/// replaces an earlier one of the same name.
pub open spec fn pairs_to_map(s: Seq<(Seq<char>, Seq<char>)>) -> Map<Seq<char>, Seq<char>>
    decreases s.len(),
{
    if s.len() == 0 {
        Map::empty()
    } else {
        pairs_to_map(s.drop_last()).insert(s.last().0, s.last().1)
    }
}

/// The pairs of a list of entries, each text taken by its characters.
pub open spec fn entries_view(entries: Seq<(String, String)>) -> Seq<(Seq<char>, Seq<char>)> {
    Seq::new(entries.len(), |i: int| (entries[i].0@, entries[i].1@))
}

/// A name that no pair from `from` on holds is looked up in the pairs before
/// `from`; one that the pair before `from` holds has that pair's value.
proof fn lemma_pairs_lookup(s: Seq<(Seq<char>, Seq<char>)>, key: Seq<char>, from: int)
    requires
        0 <= from <= s.len(),
        forall|j: int| from <= j < s.len() ==> s[j].0 != key,
    ensures
        from == 0 ==> !pairs_to_map(s).contains_key(key),
        from > 0 && s[from - 1].0 == key ==> pairs_to_map(s).contains_key(key) && pairs_to_map(
            s,
        )[key] == s[from - 1].1,
    decreases s.len(),
{
    if s.len() == 0 {
    } else if from == s.len() {
    } else {
        let t = s.drop_last();
        lemma_pairs_lookup(t, key, from);
    }
}

/// The options of a table, by name. Setting an option that is already there
/// replaces its value.
#[derive(Debug, Clone)]
pub struct TableOptions {
    entries: Vec<(String, String)>,
}

impl View for TableOptions {
    type V = Map<Seq<char>, Seq<char>>;

    closed spec fn view(&self) -> Map<Seq<char>, Seq<char>> {
        pairs_to_map(entries_view(self.entries@))
    }
}

impl TableOptions {
    /// No options.
    pub fn new() -> (options: TableOptions)
        ensures
            options@ == Map::<Seq<char>, Seq<char>>::empty(),
    {
        TableOptions { entries: Vec::new() }
    }

    /// Sets the option `key` to `value`.
    pub fn insert(&mut self, key: &str, value: &str)
        ensures
            final(self)@ == old(self)@.insert(key@, value@),
    {
        let ghost before = entries_view(self.entries@);
        self.entries.push((key.to_owned(), value.to_owned()));
        proof {
            let after = entries_view(self.entries@);
            assert(after.drop_last() =~= before);
        }
    }

    /// The value of the option `key`, if it is set.
    pub fn get(&self, key: &str) -> (value: Option<&String>)
        ensures
            match value {
                Some(v) => self@.contains_key(key@) && self@[key@] == v@,
                None => !self@.contains_key(key@),
            },
    {
        let mut i: usize = self.entries.len();
        while i > 0
            invariant
                i <= self.entries.len(),
                forall|j: int|
                    i <= j < self.entries.len() ==> entries_view(self.entries@)[j].0 != key@,
            decreases i,
        {
            i -= 1;
            if str_eq(self.entries[i].0.as_str(), key) {
                proof {
                    lemma_pairs_lookup(entries_view(self.entries@), key@, i + 1);
                }
                return Some(&self.entries[i].1);
            }
        }
        proof {
            lemma_pairs_lookup(entries_view(self.entries@), key@, 0);
        }
        None
    }

    /// Whether the option `key` is set.
    pub fn contains_key(&self, key: &str) -> (r: bool)
        ensures
            r == self@.contains_key(key@),
    {
        self.get(key).is_some()
    }
}

} // verus!
