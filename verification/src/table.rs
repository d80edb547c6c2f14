//! A table from names to values that keeps its entries in the order in which
//! their names first came.

use vstd::prelude::*;
use crate::names::{lemma_with_name, lemma_without_name, NameSet};
use crate::words::{lemma_position, position};

verus! {

/// What a table holds: the names, each once, and beside each name its value.
pub ghost struct TableView<V> {
    pub keys: Seq<Seq<char>>,
    pub values: Seq<V>,
}

impl<V> TableView<V> {
    /// Every name has one value and no name occurs twice.
    pub open spec fn wf(self) -> bool {
        self.keys.len() == self.values.len() && self.keys.no_duplicates()
    }

    /// The table without entries.
    pub open spec fn empty() -> Self {
        TableView { keys: Seq::empty(), values: Seq::empty() }
    }

    /// Whether `key` has an entry.
    pub open spec fn has(self, key: Seq<char>) -> bool {
        self.keys.contains(key)
    }

    /// The place of `key`'s entry, or the number of entries where it has none.
    pub open spec fn index(self, key: Seq<char>) -> int {
        position(self.keys, key)
    }

    /// The value under `key`.
    pub open spec fn get(self, key: Seq<char>) -> Option<V> {
        if self.has(key) {
            Some(self.values[self.index(key)])
        } else {
            None
        }
    }

    /// The table with `value` under `key`: in place of the old value where
    /// `key` had one, as a new last entry where it had none.
    pub open spec fn put(self, key: Seq<char>, value: V) -> Self {
        if self.has(key) {
            TableView { keys: self.keys, values: self.values.update(self.index(key), value) }
        } else {
            TableView { keys: self.keys.push(key), values: self.values.push(value) }
        }
    }

    /// The table without `key`'s entry; the other entries keep their order.
    pub open spec fn del(self, key: Seq<char>) -> Self {
        if self.has(key) {
            TableView {
                keys: self.keys.remove(self.index(key)),
                values: self.values.remove(self.index(key)),
            }
        } else {
            self
        }
    }

    /// After `put`, `key` holds `value` and every other name holds what it
    /// held before.
    pub proof fn lemma_put(self, key: Seq<char>, value: V)
        requires
            self.wf(),
        ensures
            self.put(key, value).wf(),
            self.put(key, value).get(key) == Some(value),
            forall|other: Seq<char>|
                other != key ==> #[trigger] self.put(key, value).get(other) == self.get(other),
            self.has(key) ==> self.put(key, value).keys == self.keys,
    {
        let after = self.put(key, value);
        lemma_position(self.keys, key);
        lemma_position(after.keys, key);
        lemma_with_name(self.keys, key);
        if self.has(key) {
            assert forall|other: Seq<char>| other != key implies #[trigger] after.get(other)
                == self.get(other) by {
                lemma_position(self.keys, other);
            }
        } else {
            assert(after.keys[self.keys.len() as int] == key);
            assert(position(after.keys, key) == self.keys.len());
            assert forall|other: Seq<char>| other != key implies #[trigger] after.get(other)
                == self.get(other) by {
                lemma_position(self.keys, other);
                lemma_position(after.keys, other);
                if self.has(other) {
                    let p = position(self.keys, other);
                    assert(after.keys[p] == other);
                    assert forall|k: int| 0 <= k < p implies #[trigger] after.keys[k] != other by {
                        assert(after.keys[k] == self.keys[k]);
                    }
                    crate::words::lemma_position_is(after.keys, other, p);
                } else {
                    if after.has(other) {
                        let q = position(after.keys, other);
                        if q < self.keys.len() {
                            assert(self.keys[q] == other);
                        }
                    }
                }
            }
        }
    }

    /// After `put`, the names with an entry are `key` and those that had one.
    pub proof fn lemma_put_has(self, key: Seq<char>, value: V, other: Seq<char>)
        requires
            self.wf(),
        ensures
            self.put(key, value).has(other) <==> other == key || self.has(other),
    {
        self.lemma_put(key, value);
        lemma_with_name(self.keys, key);
        if !self.has(key) {
            assert(self.put(key, value).keys == crate::names::with_name(self.keys, key));
        }
    }

    /// After `del`, `key` holds nothing and every other name holds what it
    /// held before.
    pub proof fn lemma_del(self, key: Seq<char>)
        requires
            self.wf(),
        ensures
            self.del(key).wf(),
            self.del(key).get(key) is None,
            forall|other: Seq<char>|
                other != key ==> #[trigger] self.del(key).get(other) == self.get(other),
    {
        let after = self.del(key);
        lemma_position(self.keys, key);
        lemma_without_name(self.keys, key);
        if self.has(key) {
            let p = position(self.keys, key);
            assert forall|other: Seq<char>| other != key implies #[trigger] after.get(other)
                == self.get(other) by {
                lemma_position(self.keys, other);
                lemma_position(after.keys, other);
                if self.has(other) {
                    let i = position(self.keys, other);
                    let a = if i < p { i } else { i - 1 };
                    assert(after.keys[a] == other);
                    assert forall|k: int| 0 <= k < a implies #[trigger] after.keys[k] != other by {
                        let b = if k < p { k } else { k + 1 };
                        assert(after.keys[k] == self.keys[b]);
                    }
                    crate::words::lemma_position_is(after.keys, other, a);
                    assert(after.values[a] == self.values[i]);
                }
            }
        }
    }
}

/// A table from names to values.
pub struct Table<V> {
    keys: NameSet,
    values: Vec<V>,
}

impl<V: View> View for Table<V> {
    type V = TableView<V::V>;

    closed spec fn view(&self) -> TableView<V::V> {
        TableView { keys: self.keys@, values: self.values@.map_values(|v: V| v@) }
    }
}

impl<V: View> Table<V> {
    /// Every name has one value and no name occurs twice.
    pub open spec fn wf(&self) -> bool {
        self@.wf()
    }

    /// The table without entries.
    pub fn new() -> (out: Self)
        ensures
            out@ == TableView::<V::V>::empty(),
            out.wf(),
    {
        let out = Table { keys: NameSet::new(), values: Vec::new() };
        assert(out.values@.map_values(|v: V| v@) == Seq::<V::V>::empty());
        out
    }

    /// The number of entries.
    pub fn len(&self) -> (n: usize)
        requires
            self.wf(),
        ensures
            n == self@.keys.len(),
    {
        self.values.len()
    }

    /// The place of `key`'s entry, or the number of entries where it has none.
    pub fn find(&self, key: &str) -> (at: usize)
        requires
            self.wf(),
        ensures
            at == self@.index(key@),
            at <= self@.keys.len(),
            at < self@.keys.len() <==> self@.has(key@),
    {
        self.keys.find(key)
    }

    /// Whether `key` has an entry.
    pub fn contains_key(&self, key: &str) -> (b: bool)
        requires
            self.wf(),
        ensures
            b == self@.has(key@),
    {
        self.keys.contains(key)
    }

    /// The name of the entry at place `i`.
    pub fn key_at(&self, i: usize) -> (key: &String)
        requires
            self.wf(),
            i < self@.keys.len(),
        ensures
            key@ == self@.keys[i as int],
    {
        self.keys.get(i)
    }

    /// The value of the entry at place `i`.
    pub fn value_at(&self, i: usize) -> (value: &V)
        requires
            self.wf(),
            i < self@.keys.len(),
        ensures
            value@ == self@.values[i as int],
    {
        &self.values[i]
    }

    /// The value under `key`.
    pub fn get(&self, key: &str) -> (value: Option<&V>)
        requires
            self.wf(),
        ensures
            match value {
                Some(v) => self@.get(key@) == Some(v@),
                None => self@.get(key@) is None,
            },
    {
        let at = self.keys.find(key);
        if at < self.values.len() {
            Some(&self.values[at])
        } else {
            None
        }
    }

    /// Puts `value` in the place of the value at place `i` and hands the old
    /// value out.
    pub fn replace_at(&mut self, i: usize, value: V) -> (old_value: V)
        requires
            old(self).wf(),
            i < old(self)@.keys.len(),
        ensures
            final(self).wf(),
            old_value@ == old(self)@.values[i as int],
            final(self)@ == (TableView {
                keys: old(self)@.keys,
                values: old(self)@.values.update(i as int, value@),
            }),
    {
        let ghost before = self.values@;
        self.values.push(value);
        let old_value = self.values.swap_remove(i);
        assert(self.values@ == before.update(i as int, value));
        assert(self.values@.map_values(|v: V| v@) == before.map_values(|v: V| v@).update(
            i as int,
            value@,
        ));
        old_value
    }

    /// Stores `value` under `key`, in place of any value that `key` had.
    pub fn insert(&mut self, key: String, value: V)
        requires
            old(self).wf(),
        ensures
            final(self).wf(),
            final(self)@ == old(self)@.put(key@, value@),
    {
        proof {
            self@.lemma_put(key@, value@);
        }
        let at = self.keys.find(key.as_str());
        if at < self.values.len() {
            let _ = self.replace_at(at, value);
        } else {
            let ghost before = self.values@;
            self.keys.insert(key);
            self.values.push(value);
            assert(self.values@.map_values(|v: V| v@) == before.map_values(|v: V| v@).push(
                value@,
            ));
        }
    }

    /// Removes `key`'s entry and hands its value out, if it had one.
    pub fn remove(&mut self, key: &str) -> (value: Option<V>)
        requires
            old(self).wf(),
        ensures
            final(self).wf(),
            final(self)@ == old(self)@.del(key@),
            match value {
                Some(v) => old(self)@.get(key@) == Some(v@),
                None => old(self)@.get(key@) is None,
            },
    {
        proof {
            self@.lemma_del(key@);
        }
        let at = self.keys.find(key);
        if at < self.values.len() {
            let ghost before = self.values@;
            self.keys.remove(key);
            let value = self.values.remove(at);
            assert(self.values@.map_values(|v: V| v@) == before.map_values(|v: V| v@).remove(
                at as int,
            ));
            Some(value)
        } else {
            None
        }
    }
}

} // verus!
