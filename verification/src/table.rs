//! A table from names to values that keeps the order of insertion.
//!
//! Each namespace of the catalog is such a table. A name occurs at most once;
//! inserting under a name that is present replaces the value in place.

use crate::text::same_text;
use vstd::prelude::*;

verus! {

/// Whether some entry has the key.
pub open spec fn has_key<T>(entries: Seq<(Seq<char>, T)>, key: Seq<char>) -> bool {
    exists|i: int| 0 <= i < entries.len() && (#[trigger] entries[i]).0 == key
}

/// The index of an entry with the key. Where no key occurs twice there is one
/// such index at most.
pub open spec fn index_of_key<T>(entries: Seq<(Seq<char>, T)>, key: Seq<char>) -> int {
    choose|i: int| 0 <= i < entries.len() && (#[trigger] entries[i]).0 == key
}

/// The value under a key.
pub open spec fn value_of<T>(entries: Seq<(Seq<char>, T)>, key: Seq<char>) -> T {
    entries[index_of_key(entries, key)].1
}

/// No key occurs twice.
pub open spec fn distinct_keys<T>(entries: Seq<(Seq<char>, T)>) -> bool {
    forall|i: int, j: int|
        0 <= i < j < entries.len() ==> (#[trigger] entries[i]).0 != (#[trigger] entries[j]).0
}

/// The entries after a value is put under a key: in the place of the entry
/// that had the key, or else at the end.
pub open spec fn with_entry<T>(entries: Seq<(Seq<char>, T)>, key: Seq<char>, value: T) -> Seq<
    (Seq<char>, T),
> {
    if has_key(entries, key) {
        entries.update(index_of_key(entries, key), (key, value))
    } else {
        entries.push((key, value))
    }
}

/// Among distinct keys, an entry's index is the index of its key.
pub proof fn lemma_index_of_key<T>(entries: Seq<(Seq<char>, T)>, i: int)
    requires
        distinct_keys(entries),
        0 <= i < entries.len(),
    ensures
        has_key(entries, entries[i].0),
        index_of_key(entries, entries[i].0) == i,
        value_of(entries, entries[i].0) == entries[i].1,
{
    let key = entries[i].0;
    let j = index_of_key(entries, key);
    assert(0 <= j < entries.len() && entries[j].0 == key);
    if j < i {
        assert(entries[j].0 != entries[i].0);
    } else if i < j {
        assert(entries[i].0 != entries[j].0);
    }
}

/// What putting a value under a key does to the table's keys and values.
pub proof fn lemma_with_entry<T>(entries: Seq<(Seq<char>, T)>, key: Seq<char>, value: T)
    requires
        distinct_keys(entries),
    ensures
        distinct_keys(with_entry(entries, key, value)),
        has_key(with_entry(entries, key, value), key),
        value_of(with_entry(entries, key, value), key) == value,
        forall|i: int|
            0 <= i < with_entry(entries, key, value).len() ==> (#[trigger] with_entry(
                entries,
                key,
                value,
            )[i]) == (key, value) || (i < entries.len() && with_entry(entries, key, value)[i]
                == entries[i]),
        forall|other: Seq<char>|
            other != key ==> has_key(with_entry(entries, key, value), other) == has_key(
                entries,
                other,
            ),
        forall|other: Seq<char>|
            other != key && has_key(entries, other) ==> value_of(
                with_entry(entries, key, value),
                other,
            ) == value_of(entries, other),
{
    let after = with_entry(entries, key, value);
    let at = if has_key(entries, key) {
        index_of_key(entries, key)
    } else {
        entries.len() as int
    };
    assert(0 <= at < after.len());
    assert(after[at] == (key, value));
    assert forall|i: int| 0 <= i < after.len() && i != at implies #[trigger] after[i]
        == entries[i] && entries[i].0 != key by {
        if has_key(entries, key) {
            if i < at {
                assert(entries[i].0 != entries[at].0);
            } else {
                assert(entries[at].0 != entries[i].0);
            }
        } else {
            assert(entries[i].0 != key);
        }
    }
    assert(distinct_keys(after)) by {
        assert forall|i: int, j: int| 0 <= i < j < after.len() implies (#[trigger] after[i]).0 != (
        #[trigger] after[j]).0 by {
            if i != at && j != at {
                assert(entries[i].0 != entries[j].0);
            }
        }
    }
    lemma_index_of_key(after, at);
    assert forall|other: Seq<char>| other != key implies has_key(after, other) == has_key(
        entries,
        other,
    ) by {
        if has_key(after, other) {
            let i = index_of_key(after, other);
            assert(after[i].0 == other);
            assert(entries[i].0 == other);
        }
        if has_key(entries, other) {
            let i = index_of_key(entries, other);
            assert(entries[i].0 == other);
            assert(after[i].0 == other);
        }
    }
    assert forall|other: Seq<char>| other != key && has_key(entries, other) implies value_of(
        after,
        other,
    ) == value_of(entries, other) by {
        let i = index_of_key(entries, other);
        assert(entries[i].0 == other);
        assert(after[i] == entries[i]);
        lemma_index_of_key(after, i);
    }
}

/// One entry of a table.
pub struct Entry<T> {
    key: String,
    value: T,
}

/// A table from names to values, in the order of insertion.
pub struct Table<T: View> {
    entries: Vec<Entry<T>>,
}

/// Some entries in order, each as its key and the view of its value.
spec fn entry_views<T: View>(entries: Seq<Entry<T>>) -> Seq<(Seq<char>, T::V)> {
    Seq::new(entries.len(), |i: int| (entries[i].key@, entries[i].value@))
}

impl<T: View> View for Table<T> {
    type V = Seq<(Seq<char>, T::V)>;

    /// The entries in order, each as its key and the view of its value.
    closed spec fn view(&self) -> Seq<(Seq<char>, T::V)> {
        entry_views(self.entries@)
    }
}

impl<T: View> Table<T> {
    /// The table's invariant, which every table meets: no name occurs twice.
    #[verifier::type_invariant]
    pub open spec fn wf(&self) -> bool {
        distinct_keys(self@)
    }

    /// The empty table.
    pub fn new() -> (table: Self)
        ensures
            table@ == Seq::<(Seq<char>, T::V)>::empty(),
    {
        let table = Table { entries: Vec::new() };
        assert(table@ =~= Seq::<(Seq<char>, T::V)>::empty());
        table
    }

    /// The number of entries.
    pub fn len(&self) -> (count: usize)
        ensures
            count == self@.len(),
    {
        self.entries.len()
    }

    /// The key of the entry at an index.
    pub fn key_at(&self, index: usize) -> (key: &str)
        requires
            index < self@.len(),
        ensures
            key@ == self@[index as int].0,
    {
        self.entries[index].key.as_str()
    }

    /// The value of the entry at an index.
    pub fn value_at(&self, index: usize) -> (value: &T)
        requires
            index < self@.len(),
        ensures
            value@ == self@[index as int].1,
    {
        &self.entries[index].value
    }

    /// The index of the first entry with the key, if there is one.
    pub fn position(&self, key: &str) -> (found: Option<usize>)
        ensures
            match found {
                Some(index) => index < self@.len() && self@[index as int].0 == key@ && forall|
                    j: int,
                |
                    0 <= j < index ==> (#[trigger] self@[j]).0 != key@,
                None => !has_key(self@, key@),
            },
    {
        let mut i: usize = 0;
        while i < self.entries.len()
            invariant
                i <= self@.len(),
                self@.len() == self.entries@.len(),
                forall|j: int| 0 <= j < i ==> (#[trigger] self@[j]).0 != key@,
            decreases self.entries@.len() - i,
        {
            if same_text(self.entries[i].key.as_str(), key) {
                return Some(i);
            }
            i = i + 1;
        }
        None
    }

    /// Whether the table has the key.
    pub fn contains_key(&self, key: &str) -> (present: bool)
        ensures
            present == has_key(self@, key@),
    {
        self.position(key).is_some()
    }

    /// The value under a key, if the table has the key.
    pub fn get(&self, key: &str) -> (found: Option<&T>)
        ensures
            match found {
                Some(value) => has_key(self@, key@) && value@ == value_of(self@, key@),
                None => !has_key(self@, key@),
            },
    {
        match self.position(key) {
            Some(index) => {
                proof {
                    use_type_invariant(self);
                    lemma_index_of_key(self@, index as int);
                }
                Some(&self.entries[index].value)
            },
            None => None,
        }
    }

    /// Puts a value under a key: in the place of the value that the key had,
    /// or else as a new last entry.
    pub fn insert(&mut self, key: String, value: T)
        ensures
            final(self)@ == with_entry(old(self)@, key@, value@),
    {
        proof {
            use_type_invariant(&*self);
            lemma_with_entry(self@, key@, value@);
        }
        let found = self.position(key.as_str());
        // The entries are taken out while they change: the invariant holds at every step.
        let mut entries: Vec<Entry<T>> = Vec::new();
        std::mem::swap(&mut entries, &mut self.entries);
        match found {
            Some(index) => {
                proof {
                    lemma_index_of_key(old(self)@, index as int);
                }
                entries.set(index, Entry { key, value });
            },
            None => {
                entries.push(Entry { key, value });
            },
        }
        assert(entry_views(entries@) =~= with_entry(old(self)@, key@, value@));
        self.entries = entries;
    }
}

} // verus!
