//! A map keyed by peer identity that keeps its entries in ascending key order,
//! so that a walk over it always visits the peers in the same order.
//!
//! The standard ordered map would do the same, but what is known of it
//! depends on the order of its keys being known, and the order of byte
//! vectors is not: with such keys not even the length after one insertion
//! can be shown. So the order is defined in [`crate::bytes`] and the map is
//! kept here, as two vectors searched by bisection.

use crate::bytes::{
    ascending, compare, lemma_ascending_distinct, lemma_ascending_insert, lemma_precedes_asymmetric,
    lemma_precedes_irreflexive,
    lemma_precedes_transitive, lemma_sorted, precedes, sorted, Rank,
};
use vstd::prelude::*;

verus! {

/// The map that pairs each key with the value at the same place.
pub open spec fn entries<V>(keys: Seq<Seq<u8>>, values: Seq<V>) -> Map<Seq<u8>, V> {
    Map::new(|k: Seq<u8>| keys.contains(k), |k: Seq<u8>| values[keys.index_of(k)])
}

/// In a list of distinct keys, the entry of the key at place `i` is the value at place `i`.
proof fn lemma_entry_at<V>(keys: Seq<Seq<u8>>, values: Seq<V>, i: int)
    requires
        keys.no_duplicates(),
        0 <= i < keys.len(),
    ensures
        entries(keys, values).contains_key(keys[i]),
        entries(keys, values)[keys[i]] == values[i],
        keys.index_of(keys[i]) == i,
{
    assert(keys.contains(keys[i]));
    let j = keys.index_of(keys[i]);
    assert(0 <= j < keys.len() && keys[j] == keys[i]);
}

/// Putting a new key at its place in an ascending list keeps the list ascending
/// and adds exactly that entry.
proof fn lemma_insert_entry<V>(
    keys: Seq<Seq<u8>>,
    values: Seq<V>,
    at: int,
    key: Seq<u8>,
    value: V,
)
    requires
        ascending(keys),
        keys.len() == values.len(),
        0 <= at <= keys.len(),
        forall|j: int| 0 <= j < at ==> precedes(#[trigger] keys[j], key),
        forall|j: int| at <= j < keys.len() ==> precedes(key, #[trigger] keys[j]),
    ensures
        ascending(keys.insert(at, key)),
        entries(keys.insert(at, key), values.insert(at, value)) == entries(keys, values).insert(
            key,
            value,
        ),
{
    let new_keys = keys.insert(at, key);
    let new_values = values.insert(at, value);
    lemma_ascending_insert(keys, at, key);
    lemma_ascending_distinct(keys);
    lemma_ascending_distinct(new_keys);
    let before = entries(keys, values);
    let after = entries(new_keys, new_values);
    assert forall|k: Seq<u8>| #[trigger] after.contains_key(k) implies before.insert(
        key,
        value,
    ).contains_key(k) && after[k] == before.insert(key, value)[k] by {
        let i = new_keys.index_of(k);
        lemma_entry_at(new_keys, new_values, i);
        if i != at {
            let i0 = if i < at { i } else { i - 1 };
            assert(keys[i0] == k);
            lemma_entry_at(keys, values, i0);
            lemma_precedes_irreflexive(key);
        }
    }
    assert forall|k: Seq<u8>| #[trigger] before.insert(key, value).contains_key(k) implies after.contains_key(
        k,
    ) by {
        if k == key {
            assert(new_keys[at] == k);
        } else {
            let i0 = keys.index_of(k);
            let i = if i0 < at { i0 } else { i0 + 1 };
            assert(new_keys[i] == k);
        }
    }
    assert(after =~= before.insert(key, value));
}

/// Taking the key at place `at` out of an ascending list keeps the list
/// ascending and removes exactly that entry.
proof fn lemma_remove_entry<V>(keys: Seq<Seq<u8>>, values: Seq<V>, at: int)
    requires
        ascending(keys),
        keys.len() == values.len(),
        0 <= at < keys.len(),
    ensures
        ascending(keys.remove(at)),
        entries(keys.remove(at), values.remove(at)) == entries(keys, values).remove(keys[at]),
{
    let new_keys = keys.remove(at);
    let new_values = values.remove(at);
    assert forall|i: int, j: int| 0 <= i < j < new_keys.len() implies precedes(
        #[trigger] new_keys[i],
        #[trigger] new_keys[j],
    ) by {
        let i0 = if i < at { i } else { i + 1 };
        let j0 = if j < at { j } else { j + 1 };
        assert(precedes(keys[i0], keys[j0]));
    }
    lemma_ascending_distinct(keys);
    lemma_ascending_distinct(new_keys);
    let before = entries(keys, values);
    let after = entries(new_keys, new_values);
    assert forall|k: Seq<u8>| #[trigger] after.contains_key(k) implies before.remove(
        keys[at],
    ).contains_key(k) && after[k] == before.remove(keys[at])[k] by {
        let i = new_keys.index_of(k);
        lemma_entry_at(new_keys, new_values, i);
        let i0 = if i < at { i } else { i + 1 };
        assert(keys[i0] == k);
        lemma_entry_at(keys, values, i0);
    }
    assert forall|k: Seq<u8>| #[trigger] before.remove(keys[at]).contains_key(k) implies after.contains_key(
        k,
    ) by {
        let i0 = keys.index_of(k);
        let i = if i0 < at { i0 } else { i0 - 1 };
        assert(new_keys[i] == k);
    }
    assert(after =~= before.remove(keys[at]));
}

/// Replacing the value at place `at` replaces exactly the entry of the key there.
proof fn lemma_update_entry<V>(keys: Seq<Seq<u8>>, values: Seq<V>, at: int, value: V)
    requires
        ascending(keys),
        keys.len() == values.len(),
        0 <= at < keys.len(),
    ensures
        entries(keys, values.update(at, value)) == entries(keys, values).insert(keys[at], value),
{
    lemma_ascending_distinct(keys);
    let before = entries(keys, values);
    let after = entries(keys, values.update(at, value));
    assert forall|k: Seq<u8>| #[trigger] after.contains_key(k) implies after[k] == before.insert(
        keys[at],
        value,
    )[k] by {
        let i = keys.index_of(k);
        lemma_entry_at(keys, values, i);
        lemma_entry_at(keys, values.update(at, value), i);
    }
    assert(keys.contains(keys[at]));
    assert(after =~= before.insert(keys[at], value));
}

/// A map from peer identities to values of type `V`.
pub struct PeerMap<V> {
    keys: Vec<Vec<u8>>,
    values: Vec<V>,
}

impl<V> View for PeerMap<V> {
    type V = Map<Seq<u8>, V>;

    closed spec fn view(&self) -> Map<Seq<u8>, V> {
        entries(self.keys(), self.values@)
    }
}

impl<V> PeerMap<V> {
    /// The keys as byte strings, in the order they are stored.
    pub closed spec fn keys(&self) -> Seq<Seq<u8>> {
        self.keys@.map_values(|k: Vec<u8>| k@)
    }

    /// The representation is sound: one value per key, keys ascending.
    pub closed spec fn inv(&self) -> bool {
        &&& self.keys@.len() == self.values@.len()
        &&& ascending(self.keys())
    }

    /// A sound map has finitely many keys, stored in ascending order.
    pub proof fn lemma_keys(&self)
        requires
            self.inv(),
        ensures
            self@.dom().finite(),
            self.keys() == sorted(self@.dom()),
            self.keys().to_set() == self@.dom(),
            self.keys().len() == self@.dom().len(),
            ascending(self.keys()),
            forall|i: int|
                0 <= i < self.keys().len() ==> self@.contains_key(#[trigger] self.keys()[i]),
    {
        assert(self@.dom() =~= self.keys().to_set());
        lemma_sorted(self.keys());
        assert forall|i: int| 0 <= i < self.keys().len() implies self@.contains_key(
            #[trigger] self.keys()[i],
        ) by {
            assert(self.keys().contains(self.keys()[i]));
        }
    }

    /// An empty map.
    pub fn new() -> (m: Self)
        ensures
            m.inv(),
            m@ == Map::<Seq<u8>, V>::empty(),
    {
        let m = PeerMap { keys: Vec::new(), values: Vec::new() };
        assert(m@ =~= Map::<Seq<u8>, V>::empty());
        m
    }

    /// Number of entries.
    pub fn len(&self) -> (n: usize)
        requires
            self.inv(),
        ensures
            n == self@.dom().len(),
            self@.dom().finite(),
    {
        proof {
            self.lemma_keys();
        }
        self.keys.len()
    }

    /// Finds the place of `key`: where it is stored, or where it would have to
    /// be inserted to keep the keys ascending.
    fn locate(&self, key: &Vec<u8>) -> (r: (usize, bool))
        requires
            self.inv(),
        ensures
            r.0 <= self.keys().len(),
            forall|j: int| 0 <= j < r.0 ==> precedes(#[trigger] self.keys()[j], key@),
            r.1 ==> r.0 < self.keys().len() && self.keys()[r.0 as int] == key@,
            !r.1 ==> forall|j: int|
                r.0 <= j < self.keys().len() ==> precedes(key@, #[trigger] self.keys()[j]),
            r.1 == self@.contains_key(key@),
    {
        let mut lo: usize = 0;
        let mut hi: usize = self.keys.len();
        let mut found: Option<usize> = None;
        while lo < hi && found.is_none()
            invariant
                self.inv(),
                lo <= hi <= self.keys().len(),
                forall|j: int| 0 <= j < lo ==> precedes(#[trigger] self.keys()[j], key@),
                forall|j: int|
                    hi <= j < self.keys().len() ==> precedes(key@, #[trigger] self.keys()[j]),
                found matches Some(at) ==> at < self.keys().len() && self.keys()[at as int]
                    == key@,
            decreases (hi - lo) + (if found.is_none() { 1int } else { 0int }),
        {
            let mid = lo + (hi - lo) / 2;
            match compare(&self.keys[mid], key) {
                Rank::Below => {
                    assert forall|j: int| 0 <= j < mid + 1 implies precedes(
                        #[trigger] self.keys()[j],
                        key@,
                    ) by {
                        if j < mid {
                            lemma_precedes_transitive(self.keys()[j], self.keys()[mid as int], key@);
                        }
                    }
                    lo = mid + 1;
                },
                Rank::Equal => {
                    found = Some(mid);
                },
                Rank::Above => {
                    assert forall|j: int| mid <= j < self.keys().len() implies precedes(
                        key@,
                        #[trigger] self.keys()[j],
                    ) by {
                        if j > mid {
                            lemma_precedes_transitive(key@, self.keys()[mid as int], self.keys()[j]);
                        }
                    }
                    hi = mid;
                },
            }
        }
        proof {
            lemma_ascending_distinct(self.keys());
        }
        match found {
            Some(at) => {
                proof {
                    lemma_entry_at(self.keys(), self.values@, at as int);
                }
                (at, true)
            },
            None => {
                assert forall|j: int| 0 <= j < self.keys().len() implies self.keys()[j]
                    != key@ by {
                    if j < lo {
                        lemma_precedes_asymmetric(self.keys()[j], key@);
                    } else {
                        lemma_precedes_asymmetric(key@, self.keys()[j]);
                    }
                }
                (lo, false)
            },
        }
    }

    /// Whether `key` has an entry.
    pub fn contains_key(&self, key: &Vec<u8>) -> (present: bool)
        requires
            self.inv(),
        ensures
            present == self@.contains_key(key@),
    {
        self.locate(key).1
    }

    /// The value stored for `key`, if any.
    pub fn get(&self, key: &Vec<u8>) -> (value: Option<&V>)
        requires
            self.inv(),
        ensures
            match value {
                Some(v) => self@.contains_key(key@) && *v == self@[key@],
                None => !self@.contains_key(key@),
            },
    {
        let (at, found) = self.locate(key);
        if found {
            proof {
                lemma_ascending_distinct(self.keys());
                lemma_entry_at(self.keys(), self.values@, at as int);
            }
            Some(&self.values[at])
        } else {
            None
        }
    }

    /// Stores `value` for `key`, replacing the value the key had before.
    pub fn insert(&mut self, key: Vec<u8>, value: V)
        requires
            old(self).inv(),
        ensures
            final(self).inv(),
            final(self)@ == old(self)@.insert(key@, value),
    {
        let (at, found) = self.locate(&key);
        if found {
            proof {
                lemma_update_entry(self.keys(), self.values@, at as int, value);
            }
            self.values.set(at, value);
        } else {
            proof {
                lemma_insert_entry(self.keys(), self.values@, at as int, key@, value);
                assert(self.keys@.insert(at as int, key).map_values(|k: Vec<u8>| k@)
                    =~= self.keys().insert(at as int, key@));
            }
            self.keys.insert(at, key);
            self.values.insert(at, value);
        }
    }

    /// Replaces the value of `key` if it has one, and says whether it had.
    pub fn update(&mut self, key: &Vec<u8>, value: V) -> (present: bool)
        requires
            old(self).inv(),
        ensures
            final(self).inv(),
            present == old(self)@.contains_key(key@),
            final(self)@ == if present {
                old(self)@.insert(key@, value)
            } else {
                old(self)@
            },
    {
        let (at, found) = self.locate(key);
        if found {
            proof {
                lemma_update_entry(self.keys(), self.values@, at as int, value);
            }
            self.values.set(at, value);
        }
        found
    }

    /// Removes the entry of `key` and returns its value, if it had one.
    pub fn remove(&mut self, key: &Vec<u8>) -> (removed: Option<V>)
        requires
            old(self).inv(),
        ensures
            final(self).inv(),
            final(self)@ == old(self)@.remove(key@),
            match removed {
                Some(v) => old(self)@.contains_key(key@) && v == old(self)@[key@],
                None => !old(self)@.contains_key(key@),
            },
    {
        let (at, found) = self.locate(key);
        if found {
            proof {
                lemma_ascending_distinct(self.keys());
                lemma_entry_at(self.keys(), self.values@, at as int);
                lemma_remove_entry(self.keys(), self.values@, at as int);
                assert(self.keys@.remove(at as int).map_values(|k: Vec<u8>| k@)
                    =~= self.keys().remove(at as int));
            }
            self.keys.remove(at);
            Some(self.values.remove(at))
        } else {
            assert(self@.remove(key@) =~= self@);
            None
        }
    }

    /// The key at place `i` of the ascending order.
    pub fn key_at(&self, i: usize) -> (key: &Vec<u8>)
        requires
            self.inv(),
            i < self@.dom().len(),
        ensures
            key@ == sorted(self@.dom())[i as int],
            self@.contains_key(key@),
    {
        proof {
            self.lemma_keys();
        }
        &self.keys[i]
    }

    /// The value of the key at place `i` of the ascending order.
    pub fn value_at(&self, i: usize) -> (value: &V)
        requires
            self.inv(),
            i < self@.dom().len(),
        ensures
            *value == self@[sorted(self@.dom())[i as int]],
    {
        proof {
            self.lemma_keys();
            lemma_ascending_distinct(self.keys());
            lemma_entry_at(self.keys(), self.values@, i as int);
        }
        &self.values[i]
    }

    /// Replaces the value of the key at place `i` of the ascending order.
    pub fn set_value_at(&mut self, i: usize, value: V)
        requires
            old(self).inv(),
            i < old(self)@.dom().len(),
        ensures
            final(self).inv(),
            final(self)@ == old(self)@.insert(sorted(old(self)@.dom())[i as int], value),
            final(self)@.dom() == old(self)@.dom(),
    {
        proof {
            self.lemma_keys();
            lemma_update_entry(self.keys(), self.values@, i as int, value);
        }
        self.values.set(i, value);
        proof {
            assert(self@.dom() =~= old(self)@.dom());
        }
    }
}

} // verus!
