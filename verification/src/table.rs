//! A map keyed by strings, held as a list of entries with distinct keys.

use crate::text::text_eq;
use vstd::prelude::*;

verus! {

/// The map that a list of entries stands for: each entry binds its key to
/// its value, and a later entry wins over an earlier one with the same key.
pub open spec fn map_of<V: DeepView>(entries: Seq<(String, V)>) -> Map<Seq<char>, V::V>
    decreases entries.len(),
{
    if entries.len() == 0 {
        Map::empty()
    } else {
        map_of(entries.drop_last()).insert(entries.last().0@, entries.last().1.deep_view())
    }
}

/// No two entries of the list have the same key.
pub open spec fn distinct_keys<V>(entries: Seq<(String, V)>) -> bool {
    forall|i: int, j: int|
        0 <= i < j < entries.len() ==> (#[trigger] entries[i]).0@ != (#[trigger] entries[j]).0@
}

/// Some entry of the list has the key `key`.
pub open spec fn has_key<V>(entries: Seq<(String, V)>, key: Seq<char>) -> bool {
    exists|i: int| 0 <= i < entries.len() && (#[trigger] entries[i]).0@ == key
}

/// The keys of `map_of` are the keys of the entries.
pub proof fn lemma_map_of_keys<V: DeepView>(entries: Seq<(String, V)>, key: Seq<char>)
    ensures
        map_of(entries).contains_key(key) <==> has_key(entries, key),
    decreases entries.len(),
{
    if entries.len() > 0 {
        let front = entries.drop_last();
        lemma_map_of_keys(front, key);
        if has_key(entries, key) {
            let i = choose|i: int| 0 <= i < entries.len() && (#[trigger] entries[i]).0@ == key;
            if i < front.len() {
                assert(front[i].0@ == key);
            }
        }
    }
}

/// A list with distinct keys still has distinct keys without its last entry.
pub proof fn lemma_distinct_keys_of_the_front<V>(entries: Seq<(String, V)>)
    requires
        distinct_keys(entries),
        entries.len() > 0,
    ensures
        distinct_keys(entries.drop_last()),
{
}

/// Where the keys are distinct, `map_of` binds the key of each entry to the
/// value of that entry.
pub proof fn lemma_map_of_entry<V: DeepView>(entries: Seq<(String, V)>, i: int)
    requires
        distinct_keys(entries),
        0 <= i < entries.len(),
    ensures
        map_of(entries).contains_key(entries[i].0@),
        map_of(entries)[entries[i].0@] == entries[i].1.deep_view(),
    decreases entries.len(),
{
    if i < entries.len() - 1 {
        lemma_distinct_keys_of_the_front(entries);
        lemma_map_of_entry(entries.drop_last(), i);
    }
}

/// Where the keys are distinct, `map_of` has as many keys as there are
/// entries.
pub proof fn lemma_map_of_len<V: DeepView>(entries: Seq<(String, V)>)
    requires
        distinct_keys(entries),
    ensures
        map_of(entries).dom().finite(),
        map_of(entries).len() == entries.len(),
    decreases entries.len(),
{
    if entries.len() > 0 {
        lemma_distinct_keys_of_the_front(entries);
        lemma_map_of_len(entries.drop_last());
        lemma_map_of_keys(entries.drop_last(), entries.last().0@);
    }
}

/// Where the keys are distinct, to give the entry at `i` a new value is to
/// insert that value under the entry's key.
pub proof fn lemma_map_of_update<V: DeepView>(entries: Seq<(String, V)>, i: int, entry: (String, V))
    requires
        distinct_keys(entries),
        0 <= i < entries.len(),
        entry.0@ == entries[i].0@,
    ensures
        distinct_keys(entries.update(i, entry)),
        map_of(entries.update(i, entry)) == map_of(entries).insert(
            entry.0@,
            entry.1.deep_view(),
        ),
    decreases entries.len(),
{
    let updated = entries.update(i, entry);
    let front = entries.drop_last();
    if i < front.len() {
        lemma_distinct_keys_of_the_front(entries);
        lemma_map_of_update(front, i, entry);
        assert(updated.drop_last() =~= front.update(i, entry));
    } else {
        assert(updated.drop_last() =~= front);
    }
}

/// A map from strings to values that keeps its entries in the order in which
/// their keys first came.
#[derive(Debug)]
pub struct StringMap<V> {
    entries: Vec<(String, V)>,
}

impl<V> StringMap<V> {
    #[verifier::type_invariant]
    spec fn keys_are_distinct(self) -> bool {
        distinct_keys(self.entries@)
    }
}

impl<V: DeepView> View for StringMap<V> {
    type V = Map<Seq<char>, V::V>;

    closed spec fn view(&self) -> Map<Seq<char>, V::V> {
        map_of(self.entries@)
    }
}

impl<V: DeepView> DeepView for StringMap<V> {
    type V = Map<Seq<char>, V::V>;

    open spec fn deep_view(&self) -> Map<Seq<char>, V::V> {
        self@
    }
}

impl<V: DeepView> StringMap<V> {
    /// A map without entries.
    pub fn new() -> (map: Self)
        ensures
            map@ == Map::<Seq<char>, V::V>::empty(),
    {
        StringMap { entries: Vec::new() }
    }

    /// The number of keys.
    pub fn len(&self) -> (n: usize)
        ensures
            self@.dom().finite(),
            n == self@.len(),
    {
        proof {
            use_type_invariant(self);
            lemma_map_of_len(self.entries@);
        }
        self.entries.len()
    }

    /// Where the key stands in the list of entries, if it is a key.
    fn position(&self, key: &str) -> (at: Option<usize>)
        ensures
            match at {
                Some(i) => i < self.entries@.len() && self.entries@[i as int].0@ == key@,
                None => !has_key(self.entries@, key@),
            },
    {
        let mut i: usize = 0;
        while i < self.entries.len()
            invariant
                i <= self.entries@.len(),
                forall|j: int| 0 <= j < i ==> (#[trigger] self.entries@[j]).0@ != key@,
            decreases self.entries.len() - i,
        {
            if text_eq(self.entries[i].0.as_str(), key) {
                return Some(i);
            }
            i += 1;
        }
        None
    }

    /// Binds `key` to `value`. Where `key` was bound before, the new value
    /// takes the place of the old one.
    pub fn insert(&mut self, key: String, value: V)
        ensures
            final(self)@ == old(self)@.insert(key@, value.deep_view()),
    {
        proof {
            use_type_invariant(&*self);
            lemma_map_of_keys(self.entries@, key@);
        }
        let at = self.position(key.as_str());
        // The list is taken out, changed, and put back in one assignment: at
        // no point does the map hold a list with a key twice.
        let mut taken = StringMap { entries: Vec::new() };
        core::mem::swap(self, &mut taken);
        let mut entries = taken.entries;
        match at {
            Some(i) => {
                proof {
                    lemma_map_of_update(entries@, i as int, (key, value));
                }
                entries.set(i, (key, value));
            },
            None => {
                proof {
                    assert(entries@.push((key, value)).drop_last() =~= entries@);
                }
                entries.push((key, value));
            },
        }
        self.entries = entries;
    }

    /// The entries, in the order in which their keys first came.
    pub fn entries(&self) -> (entries: &Vec<(String, V)>)
        ensures
            distinct_keys(entries@),
            map_of(entries@) == self@,
    {
        proof {
            use_type_invariant(self);
        }
        &self.entries
    }

    /// Takes the map apart into its entries, in the order in which their
    /// keys first came.
    pub fn into_entries(self) -> (entries: Vec<(String, V)>)
        ensures
            distinct_keys(entries@),
            map_of(entries@) == self@,
    {
        proof {
            use_type_invariant(&self);
        }
        self.entries
    }

    /// Whether `key` is a key of the map.
    pub fn contains_key(&self, key: &str) -> (found: bool)
        ensures
            found == self@.contains_key(key@),
    {
        proof {
            lemma_map_of_keys(self.entries@, key@);
        }
        self.position(key).is_some()
    }

    /// The value that the map binds `key` to.
    pub fn get(&self, key: &str) -> (value: Option<&V>)
        ensures
            match value {
                Some(v) => self@.contains_key(key@) && self@[key@] == v.deep_view(),
                None => !self@.contains_key(key@),
            },
    {
        proof {
            use_type_invariant(self);
            lemma_map_of_keys(self.entries@, key@);
        }
        match self.position(key) {
            Some(i) => {
                proof {
                    lemma_map_of_entry(self.entries@, i as int);
                }
                Some(&self.entries[i].1)
            },
            None => None,
        }
    }
}

} // verus!
