//! A small association table from strings to values, kept as a list of
//! entries in which no key occurs twice.

use crate::text::str_eq;
use vstd::prelude::*;

verus! {

/// The map that a list of distinct keys and a list of values of the same
/// length stand for: the key at position `i` maps to the value at `i`.
pub open spec fn assoc<T>(keys: Seq<Seq<char>>, values: Seq<T>) -> Map<Seq<char>, T> {
    Map::new(|k: Seq<char>| keys.contains(k), |k: Seq<char>| values[keys.index_of(k)])
}

/// With distinct keys, the key at position `i` maps to the value at `i`.
pub proof fn lemma_assoc_at<T>(keys: Seq<Seq<char>>, values: Seq<T>, i: int)
    requires
        keys.no_duplicates(),
        0 <= i < keys.len(),
    ensures
        keys.index_of(keys[i]) == i,
        assoc(keys, values).contains_key(keys[i]),
        assoc(keys, values)[keys[i]] == values[i],
{
}

/// The map of distinct keys has exactly these keys, and as many entries as
/// there are keys.
pub proof fn lemma_assoc_dom<T>(keys: Seq<Seq<char>>, values: Seq<T>)
    requires
        keys.no_duplicates(),
    ensures
        assoc(keys, values).dom() == keys.to_set(),
        assoc(keys, values).dom().finite(),
        assoc(keys, values).len() == keys.len(),
{
    keys.unique_seq_to_set();
    vstd::seq_lib::seq_to_set_is_finite(keys);
}

/// A new key with its value at the end is an insertion into the map.
pub proof fn lemma_assoc_push<T>(keys: Seq<Seq<char>>, values: Seq<T>, k: Seq<char>, v: T)
    requires
        keys.no_duplicates(),
        keys.len() == values.len(),
        !keys.contains(k),
    ensures
        keys.push(k).no_duplicates(),
        assoc(keys.push(k), values.push(v)) == assoc(keys, values).insert(k, v),
{
    let keys2 = keys.push(k);
    let values2 = values.push(v);
    assert(keys2.no_duplicates());
    assert forall|q: Seq<char>|
        assoc(keys2, values2).contains_key(q) <==> assoc(keys, values).insert(k, v).contains_key(
            q,
        ) by {
        if keys.contains(q) {
            assert(keys2[keys.index_of(q)] == q);
        }
        if q == k {
            assert(keys2[keys.len() as int] == q);
        }
    }
    assert forall|q: Seq<char>| assoc(keys2, values2).contains_key(q) implies assoc(
        keys2,
        values2,
    )[q] == assoc(keys, values).insert(k, v)[q] by {
        let i = keys2.index_of(q);
        lemma_assoc_at(keys2, values2, i);
        if i < keys.len() {
            lemma_assoc_at(keys, values, i);
        }
    }
}

/// A new value at position `i` is an insertion under the key at `i`.
pub proof fn lemma_assoc_update<T>(keys: Seq<Seq<char>>, values: Seq<T>, i: int, v: T)
    requires
        keys.no_duplicates(),
        keys.len() == values.len(),
        0 <= i < keys.len(),
    ensures
        assoc(keys, values.update(i, v)) == assoc(keys, values).insert(keys[i], v),
{
    let values2 = values.update(i, v);
    lemma_assoc_at(keys, values, i);
    assert forall|q: Seq<char>| assoc(keys, values2).contains_key(q) implies assoc(
        keys,
        values2,
    )[q] == assoc(keys, values).insert(keys[i], v)[q] by {
        lemma_assoc_at(keys, values, keys.index_of(q));
    }
}

/// Dropping position `i` from both lists removes the key at `i` from the
/// map.
pub proof fn lemma_assoc_remove<T>(keys: Seq<Seq<char>>, values: Seq<T>, i: int)
    requires
        keys.no_duplicates(),
        keys.len() == values.len(),
        0 <= i < keys.len(),
    ensures
        keys.remove(i).no_duplicates(),
        assoc(keys.remove(i), values.remove(i)) == assoc(keys, values).remove(keys[i]),
{
    let keys2 = keys.remove(i);
    let values2 = values.remove(i);
    assert forall|q: Seq<char>|
        assoc(keys2, values2).contains_key(q) <==> assoc(keys, values).remove(
            keys[i],
        ).contains_key(q) by {
        if keys.contains(q) && q != keys[i] {
            let j = keys.index_of(q);
            if j < i {
                assert(keys2[j] == q);
            } else {
                assert(keys2[j - 1] == q);
            }
        }
    }
    assert forall|q: Seq<char>| assoc(keys2, values2).contains_key(q) implies assoc(
        keys2,
        values2,
    )[q] == assoc(keys, values).remove(keys[i])[q] by {
        let j = keys2.index_of(q);
        lemma_assoc_at(keys2, values2, j);
        if j < i {
            lemma_assoc_at(keys, values, j);
        } else {
            lemma_assoc_at(keys, values, j + 1);
        }
    }
}

/// One key with its value.
#[derive(Debug)]
pub struct Entry<V> {
    key: String,
    value: V,
}

/// Strings mapped to values. Viewed as a map from the keys' characters to
/// the values' views.
#[derive(Debug)]
pub struct Table<V> {
    entries: Vec<Entry<V>>,
}

impl<V: View> View for Table<V> {
    type V = Map<Seq<char>, V::V>;

    closed spec fn view(&self) -> Map<Seq<char>, V::V> {
        assoc(self.keys(), self.values())
    }
}

spec fn keys_of<V>(entries: Seq<Entry<V>>) -> Seq<Seq<char>> {
    entries.map_values(|e: Entry<V>| e.key@)
}

spec fn values_of<V: View>(entries: Seq<Entry<V>>) -> Seq<V::V> {
    entries.map_values(|e: Entry<V>| e.value@)
}

impl<V> Table<V> {
    /// The keys in the order in which the table holds them.
    pub closed spec fn keys(&self) -> Seq<Seq<char>> {
        keys_of(self.entries@)
    }

    #[verifier::type_invariant]
    spec fn distinct_keys(&self) -> bool {
        self.keys().no_duplicates()
    }
}

impl<V: View> Table<V> {
    /// The values' views, in the order of `keys`.
    pub closed spec fn values(&self) -> Seq<V::V> {
        values_of(self.entries@)
    }

    /// An empty table.
    pub fn new() -> (table: Self)
        ensures
            table@ == Map::<Seq<char>, V::V>::empty(),
            table.keys() == Seq::<Seq<char>>::empty(),
    {
        let table = Table { entries: Vec::new() };
        table
    }

    /// The number of keys.
    pub fn len(&self) -> (n: usize)
        ensures
            self@.dom().finite(),
            n == self@.len(),
            n == self.keys().len(),
            self.keys().no_duplicates(),
            self.keys().to_set() == self@.dom(),
    {
        proof {
            use_type_invariant(self);
            lemma_assoc_dom(self.keys(), self.values());
        }
        self.entries.len()
    }

    fn position(&self, key: &str) -> (at: Option<usize>)
        ensures
            (match at {
                Some(i) => i < self.keys().len() && self.keys()[i as int] == key@,
                None => !self.keys().contains(key@),
            }),
    {
        let mut i: usize = 0;
        while i < self.entries.len()
            invariant
                i <= self.entries.len(),
                forall|j: int| 0 <= j < i ==> self.keys()[j] != key@,
            decreases self.entries.len() - i,
        {
            if str_eq(self.entries[i].key.as_str(), key) {
                return Some(i);
            }
            i += 1;
        }
        None
    }

    /// The value of `key`.
    pub fn get(&self, key: &str) -> (found: Option<&V>)
        ensures
            (match found {
                Some(v) => self@.contains_key(key@) && v@ == self@[key@],
                None => !self@.contains_key(key@),
            }),
    {
        proof {
            use_type_invariant(self);
        }
        match self.position(key) {
            Some(i) => {
                proof {
                    lemma_assoc_at(self.keys(), self.values(), i as int);
                }
                Some(&self.entries[i].value)
            },
            None => None,
        }
    }

    /// Maps `key` to `value`, whether or not `key` was present.
    pub fn insert(&mut self, key: String, value: V)
        ensures
            final(self)@ == old(self)@.insert(key@, value@),
            final(self).keys() == (if old(self)@.contains_key(key@) {
                old(self).keys()
            } else {
                old(self).keys().push(key@)
            }),
    {
        proof {
            use_type_invariant(&*self);
            lemma_assoc_dom(self.keys(), self.values());
        }
        match self.position(key.as_str()) {
            Some(i) => {
                proof {
                    lemma_assoc_update(self.keys(), self.values(), i as int, value@);
                }
                // The entries change outside the table, which at no time
                // holds a key twice.
                let mut entries = Vec::new();
                core::mem::swap(&mut self.entries, &mut entries);
                entries[i].value = value;
                assert(keys_of(entries@) =~= old(self).keys());
                self.entries = entries;
            },
            None => {
                proof {
                    lemma_assoc_push(self.keys(), self.values(), key@, value@);
                }
                let mut entries = Vec::new();
                core::mem::swap(&mut self.entries, &mut entries);
                entries.push(Entry { key, value });
                assert(keys_of(entries@) =~= old(self).keys().push(key@));
                self.entries = entries;
            },
        }
    }

    /// Gives `key` the new `value` if `key` is present, and changes nothing
    /// if it is not.
    pub fn replace(&mut self, key: &str, value: V) -> (hit: bool)
        ensures
            hit == old(self)@.contains_key(key@),
            final(self)@ == (if hit {
                old(self)@.insert(key@, value@)
            } else {
                old(self)@
            }),
            final(self).keys() == old(self).keys(),
    {
        proof {
            use_type_invariant(&*self);
            lemma_assoc_dom(self.keys(), self.values());
        }
        match self.position(key) {
            Some(i) => {
                proof {
                    lemma_assoc_update(self.keys(), self.values(), i as int, value@);
                }
                let mut entries = Vec::new();
                core::mem::swap(&mut self.entries, &mut entries);
                entries[i].value = value;
                assert(keys_of(entries@) =~= old(self).keys());
                self.entries = entries;
                true
            },
            None => false,
        }
    }

    /// Copies of the keys, in the order of `keys`.
    pub fn key_list(&self) -> (list: Vec<String>)
        ensures
            list.deep_view() == self.keys(),
            self.keys().no_duplicates(),
            self.keys().to_set() == self@.dom(),
            self.keys().len() == self@.len(),
            self@.dom().finite(),
    {
        proof {
            use_type_invariant(self);
            lemma_assoc_dom(self.keys(), self.values());
        }
        let mut list: Vec<String> = Vec::new();
        let mut i: usize = 0;
        while i < self.entries.len()
            invariant
                i <= self.entries.len(),
                list.len() == i,
                forall|j: int| 0 <= j < i ==> list[j]@ == self.keys()[j],
            decreases self.entries.len() - i,
        {
            list.push(self.entries[i].key.clone());
            i += 1;
        }
        list
    }

    /// Takes `key` out, with its value.
    pub fn remove(&mut self, key: &str) -> (taken: Option<V>)
        ensures
            (match taken {
                Some(v) => old(self)@.contains_key(key@) && v@ == old(self)@[key@],
                None => !old(self)@.contains_key(key@),
            }),
            final(self)@ == old(self)@.remove(key@),
    {
        proof {
            use_type_invariant(&*self);
        }
        match self.position(key) {
            Some(i) => {
                proof {
                    lemma_assoc_at(self.keys(), self.values(), i as int);
                    lemma_assoc_remove(self.keys(), self.values(), i as int);
                }
                let mut entries = Vec::new();
                core::mem::swap(&mut self.entries, &mut entries);
                let entry = entries.remove(i);
                assert(keys_of(entries@) =~= old(self).keys().remove(i as int));
                self.entries = entries;
                Some(entry.value)
            },
            None => {
                None
            },
        }
    }
}

impl Table<String> {
    /// A table with copies of the same keys and values in the same order.
    pub fn duplicate(&self) -> (copy: Self)
        ensures
            copy@ == self@,
            copy.keys() == self.keys(),
            copy.keys().no_duplicates(),
            copy.keys().to_set() == copy@.dom(),
    {
        proof {
            use_type_invariant(self);
            lemma_assoc_dom(self.keys(), self.values());
        }
        let mut entries: Vec<Entry<String>> = Vec::new();
        let mut i: usize = 0;
        while i < self.entries.len()
            invariant
                i <= self.entries.len(),
                entries.len() == i,
                forall|j: int|
                    0 <= j < i ==> entries[j].key@ == self.entries[j].key@ && entries[j].value@
                        == self.entries[j].value@,
            decreases self.entries.len() - i,
        {
            let entry = &self.entries[i];
            entries.push(Entry { key: entry.key.clone(), value: entry.value.clone() });
            i += 1;
        }
        assert(keys_of(entries@) =~= self.keys());
        Table { entries }
    }
}

} // verus!
