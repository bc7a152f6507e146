//! A small map from names to values that remembers the order in which the
//! names were first inserted.

use vstd::prelude::*;
use crate::seqs::first_index;
use crate::seqs::first_index_at;
use crate::seqs::first_index_is_first;
use crate::seqs::first_index_none;
use crate::text::same_text;

verus! {

/// A map keyed by text. No name occurs twice; the entries keep the order of
/// their first insertion.
#[derive(Debug, PartialEq, Eq)]
pub struct NameMap<V> {
    entries: Vec<(String, V)>,
}

impl<V> View for NameMap<V> {
    type V = Seq<(Seq<char>, V)>;

    /// The entries in insertion order, each as its name and its value.
    closed spec fn view(&self) -> Seq<(Seq<char>, V)> {
        entries_of(self.entries@)
    }
}

spec fn entries_of<V>(stored: Seq<(String, V)>) -> Seq<(Seq<char>, V)> {
    Seq::new(stored.len(), |i: int| (stored[i].0@, stored[i].1))
}

/// The names of the entries `s`, in order.
pub open spec fn names_of<V>(s: Seq<(Seq<char>, V)>) -> Seq<Seq<char>> {
    Seq::new(s.len(), |i: int| s[i].0)
}

/// The position of the first entry of `s` named `key`, if there is one.
pub open spec fn position_of<V>(s: Seq<(Seq<char>, V)>, key: Seq<char>) -> Option<int> {
    first_index(s, |entry: (Seq<char>, V)| entry.0 == key)
}

/// The value stored under `key` in `s`, if any.
pub open spec fn value_of<V>(s: Seq<(Seq<char>, V)>, key: Seq<char>) -> Option<V> {
    match position_of(s, key) {
        Some(i) => Some(s[i].1),
        None => None,
    }
}

/// The entries `s` after `key` was given the value `value`: replaced in
/// place where `key` was there, appended otherwise.
pub open spec fn with_entry<V>(s: Seq<(Seq<char>, V)>, key: Seq<char>, value: V) -> Seq<
    (Seq<char>, V),
> {
    match position_of(s, key) {
        Some(i) => s.update(i, (key, value)),
        None => s.push((key, value)),
    }
}

impl<V: Clone> Clone for NameMap<V> {
    /// A map with the same names in the same order, each with a clone of
    /// its value.
    fn clone(&self) -> (out: Self)
        ensures
            names_of(out@) == names_of(self@),
            forall|i: int| 0 <= i < self@.len() ==> cloned::<V>(self@[i].1, #[trigger] out@[i].1),
    {
        proof {
            use_type_invariant(self);
        }
        let mut entries: Vec<(String, V)> = Vec::new();
        for i in 0..self.entries.len()
            invariant
                entries@.len() == i,
                forall|k: int| 0 <= k < i ==> (#[trigger] entries@[k]).0@ == self.entries@[k].0@,
                forall|k: int|
                    0 <= k < i ==> cloned::<V>(self.entries@[k].1, (#[trigger] entries@[k]).1),
        {
            let entry = &self.entries[i];
            entries.push((entry.0.clone(), entry.1.clone()));
        }
        assert(names_of(entries_of(entries@)) =~= names_of(self@));
        NameMap { entries }
    }
}

impl<V> NameMap<V> {
    #[verifier::type_invariant]
    spec fn names_are_distinct(&self) -> bool {
        names_of(self@).no_duplicates()
    }

    /// Whether no name occurs twice. It holds of every map that exists at
    /// run time; the methods below state it for their callers.
    pub open spec fn wf(&self) -> bool {
        names_of(self@).no_duplicates()
    }

    /// The empty map.
    pub fn new() -> (out: Self)
        ensures
            out@ == Seq::<(Seq<char>, V)>::empty(),
            out.wf(),
    {
        let out = NameMap { entries: Vec::new() };
        assert(out@ =~= Seq::<(Seq<char>, V)>::empty());
        out
    }

    /// The number of entries.
    pub fn len(&self) -> (n: usize)
        ensures
            n == self@.len(),
            self.wf(),
    {
        proof {
            use_type_invariant(self);
        }
        self.entries.len()
    }

    /// The name of the `i`-th entry.
    pub fn name_at(&self, i: usize) -> (name: &String)
        requires
            i < self@.len(),
        ensures
            name@ == self@[i as int].0,
    {
        &self.entries[i].0
    }

    /// The value of the `i`-th entry.
    pub fn value_at(&self, i: usize) -> (value: &V)
        requires
            i < self@.len(),
        ensures
            *value == self@[i as int].1,
    {
        &self.entries[i].1
    }

    /// The position of the entry named `key`.
    pub fn find(&self, key: &str) -> (found: Option<usize>)
        ensures
            match found {
                Some(i) => position_of(self@, key@) == Some(i as int) && i < self@.len(),
                None => position_of(self@, key@) is None,
            },
            self.wf(),
    {
        proof {
            use_type_invariant(self);
        }
        let ghost named = |entry: (Seq<char>, V)| entry.0 == key@;
        let mut i: usize = 0;
        while i < self.entries.len()
            invariant
                i <= self.entries@.len(),
                self@ == entries_of(self.entries@),
                self.wf(),
                named == |entry: (Seq<char>, V)| entry.0 == key@,
                forall|j: int| 0 <= j < i ==> !named(#[trigger] self@[j]),
            decreases self.entries@.len() - i,
        {
            if same_text(self.entries[i].0.as_str(), key) {
                proof {
                    first_index_at(self@, named, i as int);
                }
                return Some(i);
            }
            i += 1;
        }
        proof {
            first_index_none(self@, named);
        }
        None
    }

    /// The value stored under `key`.
    pub fn get(&self, key: &str) -> (value: Option<&V>)
        ensures
            match value {
                Some(v) => value_of(self@, key@) == Some(*v),
                None => value_of(self@, key@) is None,
            },
    {
        match self.find(key) {
            Some(i) => Some(&self.entries[i].1),
            None => None,
        }
    }

    /// Stores `value` under `key` and hands back the value that was there.
    pub fn insert(&mut self, key: String, value: V) -> (previous: Option<V>)
        ensures
            final(self)@ == with_entry(old(self)@, key@, value),
            previous == value_of(old(self)@, key@),
            final(self).wf(),
    {
        proof {
            use_type_invariant(&*self);
        }
        let found = self.find(key.as_str());
        let ghost before = self@;
        proof {
            first_index_is_first(before, |entry: (Seq<char>, V)| entry.0 == key@);
        }
        let mut taken = NameMap::new();
        std::mem::swap(self, &mut taken);
        let mut entries = taken.entries;
        let previous = match found {
            Some(i) => {
                entries.push((key, value));
                let replaced = entries.swap_remove(i);
                Some(replaced.1)
            },
            None => {
                entries.push((key, value));
                None
            },
        };
        proof {
            let after = entries_of(entries@);
            match found {
                Some(i) => {
                    assert(after =~= before.update(i as int, (key@, value)));
                    assert(names_of(after) =~= names_of(before));
                },
                None => {
                    assert(after =~= before.push((key@, value)));
                    assert(names_of(after) =~= names_of(before).push(key@));
                },
            }
        }
        *self = NameMap { entries };
        previous
    }
}

} // verus!
