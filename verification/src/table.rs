//! A finite table from text keys to text values, as the process environment,
//! a registry key and a directory of text files each are one.

use crate::text::{str_eq, Text, TextMap};
use vstd::prelude::*;

verus! {

/// A table from text keys to text values. Keys are told apart exactly, with
/// their case. Its view is the map from each key to its value.
#[derive(Clone, Debug)]
pub struct Table {
    entries: Vec<(String, String)>,
}

/// The map that a list of entries stands for: of two entries with one key
/// the later one counts.
spec fn entries_map(entries: Seq<(String, String)>) -> TextMap
    decreases entries.len(),
{
    if entries.len() == 0 {
        Map::empty()
    } else {
        entries_map(entries.drop_last()).insert(entries.last().0@, entries.last().1@)
    }
}

/// Whether `at` is the last entry of `entries` with the key `key`.
spec fn is_last_of(entries: Seq<(String, String)>, key: Text, at: int) -> bool {
    &&& 0 <= at < entries.len()
    &&& entries[at].0@ == key
    &&& forall|j: int| at < j < entries.len() ==> entries[j].0@ != key
}

/// Whether no entry of `entries` has the key `key`.
spec fn is_absent(entries: Seq<(String, String)>, key: Text) -> bool {
    forall|j: int| 0 <= j < entries.len() ==> entries[j].0@ != key
}

proof fn lemma_map_of_last(entries: Seq<(String, String)>, key: Text, at: int)
    requires
        is_last_of(entries, key, at),
    ensures
        entries_map(entries).contains_key(key),
        entries_map(entries)[key] == entries[at].1@,
    decreases entries.len(),
{
    if at < entries.len() - 1 {
        lemma_map_of_last(entries.drop_last(), key, at);
    }
}

proof fn lemma_map_of_absent(entries: Seq<(String, String)>, key: Text)
    requires
        is_absent(entries, key),
    ensures
        !entries_map(entries).contains_key(key),
    decreases entries.len(),
{
    if entries.len() > 0 {
        lemma_map_of_absent(entries.drop_last(), key);
    }
}

proof fn lemma_map_after_update(
    entries: Seq<(String, String)>,
    key: Text,
    at: int,
    entry: (String, String),
)
    requires
        is_last_of(entries, key, at),
        entry.0@ == key,
    ensures
        entries_map(entries.update(at, entry)) == entries_map(entries).insert(key, entry.1@),
    decreases entries.len(),
{
    let updated = entries.update(at, entry);
    if at == entries.len() - 1 {
        assert(updated.drop_last() == entries.drop_last());
    } else {
        lemma_map_after_update(entries.drop_last(), key, at, entry);
        assert(updated.drop_last() == entries.drop_last().update(at, entry));
    }
    assert(entries_map(updated) =~= entries_map(entries).insert(key, entry.1@));
}

proof fn lemma_map_after_remove(entries: Seq<(String, String)>, key: Text, at: int)
    requires
        is_last_of(entries, key, at),
    ensures
        entries_map(entries.remove(at)).remove(key) == entries_map(entries).remove(key),
    decreases entries.len(),
{
    let removed = entries.remove(at);
    if at == entries.len() - 1 {
        assert(removed == entries.drop_last());
        assert(entries_map(removed).remove(key) =~= entries_map(entries).remove(key));
    } else {
        lemma_map_after_remove(entries.drop_last(), key, at);
        assert(removed.drop_last() == entries.drop_last().remove(at));
        let before = entries_map(entries.drop_last());
        let after = entries_map(removed.drop_last());
        let last = entries.last();
        assert(after.insert(last.0@, last.1@).remove(key) =~= after.remove(key).insert(
            last.0@,
            last.1@,
        ));
        assert(before.insert(last.0@, last.1@).remove(key) =~= before.remove(key).insert(
            last.0@,
            last.1@,
        ));
    }
}

impl View for Table {
    type V = TextMap;

    closed spec fn view(&self) -> TextMap {
        entries_map(self.entries@)
    }
}

impl Table {
    /// The empty table.
    pub fn new() -> (table: Table)
        ensures
            table@ == TextMap::empty(),
    {
        Table { entries: Vec::new() }
    }

    /// The index of the last entry with the key `key`.
    fn find(&self, key: &str) -> (found: Option<usize>)
        ensures
            match found {
                Some(at) => is_last_of(self.entries@, key@, at as int),
                None => is_absent(self.entries@, key@),
            },
    {
        let mut at: usize = self.entries.len();
        while at > 0
            invariant
                at <= self.entries.len(),
                forall|j: int| at <= j < self.entries.len() ==> self.entries[j].0@ != key@,
            decreases at,
        {
            at -= 1;
            if str_eq(self.entries[at].0.as_str(), key) {
                return Some(at);
            }
        }
        None
    }

    /// The value of `key`, if the table has one.
    pub fn get(&self, key: &str) -> (value: Option<String>)
        ensures
            match value {
                Some(v) => self@.contains_key(key@) && self@[key@] == v@,
                None => !self@.contains_key(key@),
            },
    {
        match self.find(key) {
            Some(at) => {
                proof {
                    lemma_map_of_last(self.entries@, key@, at as int);
                }
                Some(self.entries[at].1.clone())
            },
            None => {
                proof {
                    lemma_map_of_absent(self.entries@, key@);
                }
                None
            },
        }
    }

    /// Gives `key` the value `value`, in place of the value it had if it had one.
    pub fn set(&mut self, key: &str, value: &str)
        ensures
            final(self)@ == old(self)@.insert(key@, value@),
    {
        let entry = (key.to_string(), value.to_string());
        match self.find(key) {
            Some(at) => {
                proof {
                    lemma_map_after_update(self.entries@, key@, at as int, entry);
                }
                self.entries.set(at, entry);
            },
            None => {
                self.entries.push(entry);
                assert(self.entries@.drop_last() == old(self).entries@);
            },
        }
    }

    /// Takes `key` and its value out of the table.
    pub fn remove(&mut self, key: &str)
        ensures
            final(self)@ == old(self)@.remove(key@),
    {
        loop
            invariant
                entries_map(self.entries@).remove(key@) == entries_map(old(self).entries@).remove(
                    key@,
                ),
            decreases self.entries.len(),
        {
            match self.find(key) {
                Some(at) => {
                    proof {
                        lemma_map_after_remove(self.entries@, key@, at as int);
                    }
                    self.entries.remove(at);
                },
                None => {
                    proof {
                        lemma_map_of_absent(self.entries@, key@);
                        assert(entries_map(self.entries@).remove(key@) =~= entries_map(
                            self.entries@,
                        ));
                    }
                    return ;
                },
            }
        }
    }
}

} // verus!
