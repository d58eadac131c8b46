//! A table of values under distinct keys.

use vstd::prelude::*;

use crate::types::Address;

verus! {

/// A key of a table.
pub trait Key: Copy {
    /// Whether two keys are the same.
    fn same(&self, other: &Self) -> (yes: bool)
        ensures
            yes == (*self == *other),
    ;
}

impl Key for u64 {
    fn same(&self, other: &Self) -> (yes: bool) {
        *self == *other
    }
}

impl Key for Address {
    fn same(&self, other: &Self) -> (yes: bool) {
        *self == *other
    }
}

/// Values under distinct keys. Its view is the map from each key to the view
/// of its value.
#[derive(Debug)]
pub struct Table<K, V> {
    rows: Vec<(K, V)>,
}

impl<K, V> Table<K, V> {
    /// Whether no key occurs twice.
    #[verifier::type_invariant]
    closed spec fn distinct(self) -> bool {
        forall|i: int, j: int|
            0 <= i < j < self.rows@.len() ==> self.rows@[i].0 != self.rows@[j].0
    }

    closed spec fn has(self, key: K) -> bool {
        exists|i: int| 0 <= i < self.rows@.len() && (#[trigger] self.rows@[i]).0 == key
    }

    closed spec fn position(self, key: K) -> int {
        choose|i: int| 0 <= i < self.rows@.len() && (#[trigger] self.rows@[i]).0 == key
    }
}

impl<K, V: View> View for Table<K, V> {
    type V = Map<K, V::V>;

    closed spec fn view(&self) -> Map<K, V::V> {
        Map::new(|key: K| self.has(key), |key: K| self.rows@[self.position(key)].1@)
    }
}

impl<K: Key, V: View> Table<K, V> {
    /// A table without values.
    pub fn new() -> (table: Self)
        ensures
            table@ == Map::<K, V::V>::empty(),
    {
        let table: Self = Table { rows: Vec::new() };
        assert(table@ =~= Map::<K, V::V>::empty());
        table
    }

    /// The row that holds the key.
    fn find(&self, key: K) -> (row: Option<usize>)
        ensures
            match row {
                Some(i) => i < self.rows@.len() && self.rows@[i as int].0 == key,
                None => !self.has(key),
            },
    {
        let count: usize = self.rows.len();
        for i in 0..count
            invariant
                count == self.rows@.len(),
                forall|j: int| 0 <= j < i ==> (#[trigger] self.rows@[j]).0 != key,
        {
            if self.rows[i].0.same(&key) {
                return Some(i);
            }
        }
        None
    }

    /// The value under the key.
    pub fn get(&self, key: K) -> (value: Option<&V>)
        ensures
            match value {
                Some(v) => self@.contains_key(key) && v@ == self@[key],
                None => !self@.contains_key(key),
            },
    {
        proof {
            use_type_invariant(self);
        }
        match self.find(key) {
            Some(i) => {
                assert(self.has(key));
                assert(self.position(key) == i);
                Some(&self.rows[i].1)
            },
            None => None,
        }
    }

    /// Puts the value under the key, in place of the one that was there.
    pub fn set(&mut self, key: K, value: V)
        ensures
            final(self)@ == old(self)@.insert(key, value@),
    {
        proof {
            use_type_invariant(&*self);
        }
        let row = self.find(key);
        let ghost before = *self;
        let mut rows: Vec<(K, V)> = Vec::new();
        std::mem::swap(&mut rows, &mut self.rows);
        let ghost view = value@;
        match row {
            Some(i) => {
                rows.set(i, (key, value));
            },
            None => {
                rows.push((key, value));
            },
        }
        self.rows = rows;
        proof {
            Self::lemma_set(before, *self, key, view, match row {
                Some(i) => i as int,
                None => before.rows@.len() as int,
            });
        }
    }

    /// Writing one row at or behind the end, under a key that no other row
    /// has, inserts the key.
    proof fn lemma_set(before: Self, after: Self, key: K, value: V::V, at: int)
        requires
            before.distinct(),
            0 <= at <= before.rows@.len(),
            at < before.rows@.len() ==> before.rows@[at].0 == key && after.rows@.len()
                == before.rows@.len(),
            at == before.rows@.len() ==> !before.has(key) && after.rows@.len()
                == before.rows@.len() + 1,
            after.rows@[at].0 == key,
            after.rows@[at].1@ == value,
            forall|i: int|
                0 <= i < before.rows@.len() && i != at ==> #[trigger] after.rows@[i]
                    == before.rows@[i],
        ensures
            after.distinct(),
            after@ == before@.insert(key, value),
    {
        assert forall|i: int| 0 <= i < before.rows@.len() && i != at implies (
        #[trigger] before.rows@[i]).0 != key by {
            if at == before.rows@.len() {
                assert(!before.has(key));
            }
        }
        assert(after.has(key));
        assert forall|k: K| after.has(k) == (before.has(k) || k == key) by {
            if before.has(k) && k != key {
                assert(after.rows@[before.position(k)].0 == k);
            }
            if after.has(k) && k != key {
                assert(before.rows@[after.position(k)].0 == k);
            }
        }
        assert forall|k: K| after.has(k) implies after@[k] == before@.insert(key, value)[k] by {
            let p = after.position(k);
            if k == key {
                if p != at {
                    assert(before.rows@[p].0 == key);
                }
            } else {
                assert(before.rows@[p].0 == k);
                assert(before.position(k) == p);
            }
        }
        assert(after@ =~= before@.insert(key, value));
    }
}

} // verus!
