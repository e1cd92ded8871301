//! A table from strings to values that remembers the order in which its keys
//! came.

use vstd::prelude::*;

use crate::text;

verus! {

#[derive(Debug)]
struct Entry<V> {
    key: String,
    value: V,
}

/// A table from strings to values. No key occurs twice, and the keys keep the
/// order in which they were first inserted.
///
/// Its view is the map from the characters of each key to its value.
#[derive(Debug)]
pub struct Table<V> {
    entries: Vec<Entry<V>>,
}

spec fn keys_of<V>(entries: Seq<Entry<V>>) -> Seq<Seq<char>> {
    Seq::new(entries.len(), |i: int| entries[i].key@)
}

spec fn map_of<V>(entries: Seq<Entry<V>>) -> Map<Seq<char>, V> {
    Map::new(
        |k: Seq<char>| keys_of(entries).contains(k),
        |k: Seq<char>| entries[keys_of(entries).index_of(k)].value,
    )
}

impl<V> View for Table<V> {
    type V = Map<Seq<char>, V>;

    closed spec fn view(&self) -> Map<Seq<char>, V> {
        map_of(self.entries@)
    }
}

proof fn lemma_map_of_at<V>(entries: Seq<Entry<V>>, i: int)
    requires
        keys_of(entries).no_duplicates(),
        0 <= i < entries.len(),
    ensures
        map_of(entries).dom().contains(entries[i].key@),
        map_of(entries)[entries[i].key@] == entries[i].value,
        keys_of(entries)[i] == entries[i].key@,
{
    let keys = keys_of(entries);
    assert(keys[i] == entries[i].key@);
    assert(keys.contains(keys[i]));
    let j = keys.index_of(keys[i]);
    assert(0 <= j < keys.len() && keys[j] == keys[i]);
    assert(i == j);
}

impl<V> Table<V> {
    #[verifier::type_invariant]
    spec fn valid(self) -> bool {
        keys_of(self.entries@).no_duplicates()
    }

    /// The keys in the order in which they were first inserted.
    pub closed spec fn order(&self) -> Seq<Seq<char>> {
        keys_of(self.entries@)
    }

    /// An empty table.
    pub fn new() -> (table: Self)
        ensures
            table@ == Map::<Seq<char>, V>::empty(),
            table.order() == Seq::<Seq<char>>::empty(),
    {
        let table = Table { entries: Vec::new() };
        assert(table@ =~= Map::<Seq<char>, V>::empty());
        assert(table.order() =~= Seq::<Seq<char>>::empty());
        table
    }

    /// The number of keys.
    pub fn len(&self) -> (n: usize)
        ensures
            n == self.order().len(),
            self.order().no_duplicates(),
            forall|k: Seq<char>| #[trigger]
                self.order().contains(k) == self@.dom().contains(k),
    {
        proof {
            use_type_invariant(&*self);
        }
        self.entries.len()
    }

    fn find(&self, key: &str) -> (result: Option<usize>)
        ensures
            match result {
                Some(i) => i < self.entries@.len() && self.entries@[i as int].key@ == key@,
                None => !self.order().contains(key@),
            },
    {
        let mut i: usize = 0;
        while i < self.entries.len()
            invariant
                i <= self.entries@.len(),
                forall|j: int| 0 <= j < i ==> self.entries@[j].key@ != key@,
            decreases self.entries.len() - i,
        {
            if text::same(self.entries[i].key.as_str(), key) {
                return Some(i);
            }
            i = i + 1;
        }
        None
    }

    /// The key at a position of the order.
    pub fn key_at(&self, i: usize) -> (key: &String)
        requires
            i < self.order().len(),
        ensures
            key@ == self.order()[i as int],
    {
        &self.entries[i].key
    }

    /// The value at a position of the order.
    pub fn value_at(&self, i: usize) -> (value: &V)
        requires
            i < self.order().len(),
        ensures
            self@.dom().contains(self.order()[i as int]),
            *value == self@[self.order()[i as int]],
    {
        proof {
            use_type_invariant(&*self);
            lemma_map_of_at(self.entries@, i as int);
        }
        &self.entries[i].value
    }

    /// Whether a key is in the table.
    pub fn contains(&self, key: &str) -> (result: bool)
        ensures
            result == self@.dom().contains(key@),
    {
        proof {
            use_type_invariant(&*self);
        }
        match self.find(key) {
            Some(i) => {
                proof {
                    lemma_map_of_at(self.entries@, i as int);
                }
                true
            },
            None => false,
        }
    }

    /// The value of a key, where the key is in the table.
    pub fn get(&self, key: &str) -> (result: Option<&V>)
        ensures
            result is Some == self@.dom().contains(key@),
            result is Some ==> *result->0 == self@[key@],
    {
        proof {
            use_type_invariant(&*self);
        }
        match self.find(key) {
            Some(i) => {
                proof {
                    lemma_map_of_at(self.entries@, i as int);
                }
                Some(&self.entries[i].value)
            },
            None => None,
        }
    }

    /// Puts a new value in place of the value of a key, and returns the old
    /// one.
    pub fn replace(&mut self, key: &str, value: V) -> (previous: V)
        requires
            old(self)@.dom().contains(key@),
        ensures
            final(self)@ == old(self)@.insert(key@, value),
            final(self).order() == old(self).order(),
            previous == old(self)@[key@],
    {
        proof {
            use_type_invariant(&*self);
        }
        let position = self.find(key);
        match position {
            Some(i) => {
                let mut entries: Vec<Entry<V>> = Vec::new();
                std::mem::swap(&mut self.entries, &mut entries);
                let ghost before = entries@;
                proof {
                    lemma_map_of_at(before, i as int);
                }
                let mut slot = value;
                std::mem::swap(&mut entries[i].value, &mut slot);
                proof {
                    let after = entries@;
                    assert(after =~= before.update(i as int, after[i as int]));
                    assert(keys_of(after) =~= keys_of(before));
                    assert forall|k: Seq<char>| map_of(before).dom().contains(k) implies
                        map_of(after)[k] == map_of(before).insert(key@, value)[k] by {
                        let j = keys_of(before).index_of(k);
                        assert(keys_of(before).contains(k));
                        assert(keys_of(before)[j] == k);
                        lemma_map_of_at(before, j);
                        lemma_map_of_at(after, j);
                    }
                    assert(map_of(after) =~= map_of(before).insert(key@, value));
                }
                self.entries = entries;
                slot
            },
            None => {
                assert(false);
                value
            },
        }
    }

    /// Sets the value of a key. A new key goes to the end of the order.
    pub fn insert(&mut self, key: String, value: V)
        ensures
            final(self)@ == old(self)@.insert(key@, value),
            final(self).order() == (if old(self)@.dom().contains(key@) {
                old(self).order()
            } else {
                old(self).order().push(key@)
            }),
    {
        proof {
            use_type_invariant(&*self);
        }
        if self.contains(key.as_str()) {
            let _previous = self.replace(key.as_str(), value);
        } else {
            let ghost k = key@;
            let mut entries: Vec<Entry<V>> = Vec::new();
            std::mem::swap(&mut self.entries, &mut entries);
            let ghost before = entries@;
            entries.push(Entry { key, value });
            proof {
                let after = entries@;
                assert(keys_of(after) =~= keys_of(before).push(k));
                assert(!keys_of(before).contains(k));
                assert forall|i: int, j: int|
                    0 <= i < j < keys_of(after).len() implies keys_of(after)[i] != keys_of(
                    after,
                )[j] by {
                    if j == before.len() {
                        assert(keys_of(before).contains(keys_of(before)[i]));
                    }
                }
                assert(keys_of(after).no_duplicates());
                lemma_map_of_at(after, before.len() as int);
                assert forall|q: Seq<char>|
                    map_of(after).dom().contains(q) == map_of(before).insert(
                        k,
                        value,
                    ).dom().contains(q) by {
                    if keys_of(before).contains(q) {
                        let i = keys_of(before).index_of(q);
                        assert(keys_of(after)[i] == q);
                    }
                    if keys_of(after).contains(q) {
                        let i = keys_of(after).index_of(q);
                        assert(keys_of(after)[i] == q);
                        if i < before.len() {
                            assert(keys_of(before)[i] == q);
                        }
                    }
                }
                assert forall|q: Seq<char>| map_of(before).dom().contains(q) implies map_of(
                    after,
                )[q] == map_of(before)[q] by {
                    let i = keys_of(before).index_of(q);
                    assert(keys_of(before).contains(q));
                    assert(keys_of(before)[i] == q);
                    assert(after[i] == before[i]);
                    lemma_map_of_at(before, i);
                    lemma_map_of_at(after, i);
                }
                assert(map_of(after) =~= map_of(before).insert(k, value));
            }
            self.entries = entries;
        }
    }
}

impl<V: Clone> Clone for Table<V> {
    fn clone(&self) -> (result: Self)
        ensures
            result.order() == self.order(),
            result@.dom() == self@.dom(),
            forall|k: Seq<char>| #[trigger]
                self@.dom().contains(k) ==> cloned(self@[k], result@[k]),
    {
        proof {
            use_type_invariant(&*self);
        }
        let mut entries: Vec<Entry<V>> = Vec::new();
        let mut i: usize = 0;
        while i < self.entries.len()
            invariant
                i <= self.entries@.len(),
                entries@.len() == i,
                forall|j: int|
                    0 <= j < i ==> (#[trigger] entries@[j]).key == self.entries@[j].key && cloned(
                        self.entries@[j].value,
                        entries@[j].value,
                    ),
            decreases self.entries.len() - i,
        {
            entries.push(
                Entry { key: self.entries[i].key.clone(), value: self.entries[i].value.clone() },
            );
            i = i + 1;
        }
        proof {
            assert(keys_of(entries@) =~= keys_of(self.entries@));
            assert(map_of(entries@).dom() =~= map_of(self.entries@).dom());
            assert forall|k: Seq<char>| #[trigger]
                map_of(self.entries@).dom().contains(k) implies cloned(
                map_of(self.entries@)[k],
                map_of(entries@)[k],
            ) by {
                let j = keys_of(entries@).index_of(k);
                assert(keys_of(entries@).contains(k));
                assert(entries@[j].key == self.entries@[j].key);
            }
        }
        Table { entries }
    }
}

} // verus!
