//! A map from strings to values that remembers the order of its keys.
//!
//! The map is kept as a list of entries whose keys are distinct. A key stays
//! where it was first inserted, so the entries are walked in the same order
//! every time. Contracts speak of the list of entries, `entries()`, and of
//! the mathematical map that it stands for, `@`.

use vstd::prelude::*;
use vstd::string::StringExecFns;

verus! {

/// True when some entry of `entries` has the key `key`.
pub open spec fn has_key<V>(entries: Seq<(Seq<char>, V)>, key: Seq<char>) -> bool {
    exists|i: int| 0 <= i < entries.len() && (#[trigger] entries[i]).0 == key
}

/// The place of an entry with the key `key`, where there is one.
pub open spec fn position<V>(entries: Seq<(Seq<char>, V)>, key: Seq<char>) -> int {
    choose|i: int| 0 <= i < entries.len() && (#[trigger] entries[i]).0 == key
}

/// No two entries share a key.
pub open spec fn distinct_keys<V>(entries: Seq<(Seq<char>, V)>) -> bool {
    forall|i: int, j: int|
        0 <= i < j < entries.len() ==> (#[trigger] entries[i]).0 != (#[trigger] entries[j]).0
}

/// The value of `key`, if an entry has that key.
pub open spec fn entries_get<V>(entries: Seq<(Seq<char>, V)>, key: Seq<char>) -> Option<V> {
    if has_key(entries, key) {
        Some(entries[position(entries, key)].1)
    } else {
        None
    }
}

/// The entries with `key` set to `value`: a key that is there keeps its place
/// and gets the new value, a new key goes to the end.
pub open spec fn entries_insert<V>(entries: Seq<(Seq<char>, V)>, key: Seq<char>, value: V) -> Seq<
    (Seq<char>, V),
> {
    if has_key(entries, key) {
        entries.update(position(entries, key), (key, value))
    } else {
        entries.push((key, value))
    }
}

/// The entries without `key`; the others keep their order.
pub open spec fn entries_remove<V>(entries: Seq<(Seq<char>, V)>, key: Seq<char>) -> Seq<
    (Seq<char>, V),
> {
    if has_key(entries, key) {
        entries.remove(position(entries, key))
    } else {
        entries
    }
}

/// The map that a list of entries stands for.
pub open spec fn entries_map<V>(entries: Seq<(Seq<char>, V)>) -> Map<Seq<char>, V> {
    Map::new(
        |k: Seq<char>| has_key(entries, k),
        |k: Seq<char>| entries[position(entries, k)].1,
    )
}

/// Among distinct keys, the key of entry `i` is found at `i` and nowhere else.
pub proof fn lemma_position<V>(entries: Seq<(Seq<char>, V)>, i: int)
    requires
        distinct_keys(entries),
        0 <= i < entries.len(),
    ensures
        has_key(entries, entries[i].0),
        position(entries, entries[i].0) == i,
        entries_get(entries, entries[i].0) == Some(entries[i].1),
        entries_map(entries)[entries[i].0] == entries[i].1,
{
    let key = entries[i].0;
    let p = position(entries, key);
    assert(0 <= p < entries.len() && entries[p].0 == key);
    if p < i {
        assert(entries[p].0 != entries[i].0);
    } else if i < p {
        assert(entries[i].0 != entries[p].0);
    }
}

/// Setting a key keeps the keys distinct, and sets that key in the map.
pub proof fn lemma_insert<V>(entries: Seq<(Seq<char>, V)>, key: Seq<char>, value: V)
    requires
        distinct_keys(entries),
    ensures
        distinct_keys(entries_insert(entries, key, value)),
        entries_map(entries_insert(entries, key, value)) == entries_map(entries).insert(key, value),
        entries_get(entries_insert(entries, key, value), key) == Some(value),
        forall|other: Seq<char>|
            other != key ==> entries_get(entries_insert(entries, key, value), other)
                == entries_get(entries, other),
{
    let after = entries_insert(entries, key, value);
    let place = if has_key(entries, key) {
        position(entries, key)
    } else {
        entries.len() as int
    };
    assert(after[place] == (key, value));
    assert forall|a: int| 0 <= a < after.len() && a != place implies #[trigger] after[a]
        == entries[a] by {}
    assert forall|a: int, b: int| 0 <= a < b < after.len() implies (#[trigger] after[a]).0 != (
    #[trigger] after[b]).0 by {
        if a != place && b != place {
            assert(entries[a].0 != entries[b].0);
        } else if has_key(entries, key) {
            if a == place {
                assert(entries[place].0 != entries[b].0);
            } else {
                assert(entries[a].0 != entries[place].0);
            }
        } else {
            assert(entries[a].0 != key);
        }
    }
    assert forall|k: Seq<char>| has_key(after, k) <==> (k == key || has_key(entries, k)) by {
        if has_key(after, k) {
            let p = position(after, k);
            if p != place {
                assert(entries[p].0 == k);
            }
        }
        if has_key(entries, k) {
            let p = position(entries, k);
            assert(after[p].0 == k);
        }
        if k == key {
            assert(after[place].0 == k);
        }
    }
    assert forall|k: Seq<char>| has_key(after, k) implies #[trigger] entries_map(after)[k]
        == entries_map(entries).insert(key, value)[k] by {
        let p = position(after, k);
        lemma_position(after, p);
        if p != place {
            lemma_position(entries, p);
        }
    }
    assert(entries_map(after) =~= entries_map(entries).insert(key, value));
    lemma_position(after, place);
    assert forall|other: Seq<char>| other != key implies entries_get(after, other) == entries_get(
        entries,
        other,
    ) by {
        if has_key(entries, other) {
            let p = position(entries, other);
            assert(after[p] == entries[p]);
            lemma_position(after, p);
        }
    }
}

/// Taking a key out keeps the keys distinct, and takes that key out of the map.
pub proof fn lemma_remove<V>(entries: Seq<(Seq<char>, V)>, key: Seq<char>)
    requires
        distinct_keys(entries),
    ensures
        distinct_keys(entries_remove(entries, key)),
        entries_map(entries_remove(entries, key)) == entries_map(entries).remove(key),
        entries_get(entries_remove(entries, key), key) is None,
        forall|other: Seq<char>|
            other != key ==> entries_get(entries_remove(entries, key), other) == entries_get(
                entries,
                other,
            ),
{
    let after = entries_remove(entries, key);
    if has_key(entries, key) {
        let i = position(entries, key);
        assert forall|a: int| 0 <= a < after.len() implies #[trigger] after[a] == entries[if a
            < i {
            a
        } else {
            a + 1
        }] by {}
        assert forall|a: int, b: int| 0 <= a < b < after.len() implies (#[trigger] after[a]).0 != (
        #[trigger] after[b]).0 by {
            let a0 = if a < i { a } else { a + 1 };
            let b0 = if b < i { b } else { b + 1 };
            assert(entries[a0].0 != entries[b0].0);
        }
        assert forall|k: Seq<char>| has_key(after, k) <==> (k != key && has_key(entries, k)) by {
            if has_key(after, k) {
                let p = position(after, k);
                let shifted = if p < i { p } else { p + 1 };
                assert(entries[shifted].0 == k);
                if shifted < i {
                    assert(entries[shifted].0 != entries[i].0);
                } else {
                    assert(entries[i].0 != entries[shifted].0);
                }
            }
            if k != key && has_key(entries, k) {
                let p = position(entries, k);
                let q = if p < i { p } else { p - 1 };
                assert(after[q].0 == k);
            }
        }
        assert forall|k: Seq<char>| has_key(after, k) implies #[trigger] entries_map(after)[k]
            == entries_map(entries).remove(key)[k] && entries_get(after, k) == entries_get(
            entries,
            k,
        ) by {
            let p = position(after, k);
            let shifted = if p < i { p } else { p + 1 };
            lemma_position(after, p);
            lemma_position(entries, shifted);
        }
    }
    assert(entries_map(after) =~= entries_map(entries).remove(key));
}

/// A list of entries with distinct keys has as many keys as entries.
pub proof fn lemma_map_size<V>(entries: Seq<(Seq<char>, V)>)
    requires
        distinct_keys(entries),
    ensures
        entries_map(entries).dom().finite(),
        entries_map(entries).dom().len() == entries.len(),
    decreases entries.len(),
{
    if entries.len() == 0 {
        assert(entries_map(entries).dom() =~= Set::<Seq<char>>::empty());
    } else {
        let front = entries.drop_last();
        let last = entries.last();
        assert forall|i: int, j: int| 0 <= i < j < front.len() implies (#[trigger] front[i]).0 != (
        #[trigger] front[j]).0 by {
            assert(entries[i].0 != entries[j].0);
        }
        lemma_map_size(front);
        assert(!has_key(front, last.0)) by {
            if has_key(front, last.0) {
                let p = position(front, last.0);
                assert(entries[p].0 != entries[entries.len() - 1].0);
            }
        }
        lemma_insert(front, last.0, last.1);
        assert(entries_insert(front, last.0, last.1) =~= entries);
        assert(entries_map(entries).dom() =~= entries_map(front).dom().insert(last.0));
    }
}

/// The entries with `f` applied to each value; keys and order stay.
pub open spec fn map_values<V, W>(entries: Seq<(Seq<char>, V)>, f: spec_fn(V) -> W) -> Seq<
    (Seq<char>, W),
> {
    Seq::new(entries.len(), |i: int| (entries[i].0, f(entries[i].1)))
}

/// Applying a function to the values changes no key and no place.
pub proof fn lemma_map_values<V, W>(entries: Seq<(Seq<char>, V)>, f: spec_fn(V) -> W)
    ensures
        forall|k: Seq<char>| has_key(map_values(entries, f), k) == has_key(entries, k),
        distinct_keys(entries) ==> distinct_keys(map_values(entries, f)),
        distinct_keys(entries) ==> forall|k: Seq<char>| #[trigger]
            has_key(entries, k) ==> position(map_values(entries, f), k) == position(entries, k),
        distinct_keys(entries) ==> forall|k: Seq<char>| #[trigger]
            entries_get(map_values(entries, f), k) == match entries_get(entries, k) {
                Some(v) => Some(f(v)),
                None => None,
            },
{
    let mapped = map_values(entries, f);
    assert forall|k: Seq<char>| has_key(mapped, k) == has_key(entries, k) by {
        if has_key(mapped, k) {
            let p = position(mapped, k);
            assert(entries[p].0 == k);
        }
        if has_key(entries, k) {
            let p = position(entries, k);
            assert(mapped[p].0 == k);
        }
    }
    if distinct_keys(entries) {
        assert forall|a: int, b: int| 0 <= a < b < mapped.len() implies (#[trigger] mapped[a]).0
            != (#[trigger] mapped[b]).0 by {
            assert(entries[a].0 != entries[b].0);
        }
        assert forall|k: Seq<char>| #[trigger] has_key(entries, k) implies position(mapped, k)
            == position(entries, k) by {
            let p = position(entries, k);
            assert(mapped[p].0 == k);
            lemma_position(mapped, p);
        }
    }
}

/// Applying a function to the values, then setting a key, is setting the key
/// and then applying the function.
pub proof fn lemma_map_values_insert<V, W>(
    entries: Seq<(Seq<char>, V)>,
    f: spec_fn(V) -> W,
    key: Seq<char>,
    value: V,
)
    requires
        distinct_keys(entries),
    ensures
        map_values(entries_insert(entries, key, value), f) == entries_insert(
            map_values(entries, f),
            key,
            f(value),
        ),
{
    lemma_map_values(entries, f);
    assert(map_values(entries_insert(entries, key, value), f) =~= entries_insert(
        map_values(entries, f),
        key,
        f(value),
    ));
}

/// A map from strings to values of type `V`, in the order of insertion.
#[derive(Debug)]
pub struct StrMap<V> {
    pub(crate) entries: Vec<(String, V)>,
}

impl<V> StrMap<V> {
    #[verifier::type_invariant]
    spec fn inv(&self) -> bool {
        distinct_keys(self.entries())
    }

    /// The entries, in the order in which their keys were first inserted.
    pub closed spec fn entries(&self) -> Seq<(Seq<char>, V)> {
        Seq::new(self.entries@.len(), |i: int| (self.entries@[i].0@, self.entries@[i].1))
    }

    /// The map from each key to its value.
    pub open spec fn view(&self) -> Map<Seq<char>, V> {
        entries_map(self.entries())
    }

    /// Every value of the map is a part of the map: a function that recurses
    /// into the values terminates.
    pub proof fn lemma_entry_is_part(self, i: int)
        requires
            0 <= i < self.entries().len(),
        ensures
            decreases_to!(self => self.entries()[i].1),
    {
        assert(decreases_to!(self => self.entries));
        assert(decreases_to!(self.entries => self.entries@));
        assert(decreases_to!(self.entries@ => self.entries@[i]));
        assert(decreases_to!(self.entries@[i] => self.entries@[i].1));
    }

    /// The empty map.
    pub fn new() -> (m: Self)
        ensures
            m.entries() == Seq::<(Seq<char>, V)>::empty(),
    {
        let m = StrMap { entries: Vec::new() };
        assert(m.entries() =~= Seq::<(Seq<char>, V)>::empty());
        m
    }

    /// The number of keys.
    pub fn len(&self) -> (n: usize)
        ensures
            n == self.entries().len(),
            n == self@.dom().len(),
            distinct_keys(self.entries()),
    {
        proof {
            use_type_invariant(self);
            lemma_map_size(self.entries());
        }
        self.entries.len()
    }

    /// True when the map has no key.
    pub fn is_empty(&self) -> (b: bool)
        ensures
            b == (self.entries().len() == 0),
    {
        self.entries.len() == 0
    }

    /// The key of entry `i`.
    pub(crate) fn key_at(&self, i: usize) -> (key: &String)
        requires
            i < self.entries().len(),
        ensures
            key@ == self.entries()[i as int].0,
    {
        &self.entries[i].0
    }

    /// The value of entry `i`.
    pub(crate) fn value_at(&self, i: usize) -> (value: &V)
        requires
            i < self.entries().len(),
        ensures
            *value == self.entries()[i as int].1,
    {
        &self.entries[i].1
    }

    /// Entry `i` in the order of insertion, or `None` when `i` is not below
    /// `len()`.
    pub fn entry(&self, i: usize) -> (e: Option<(&String, &V)>)
        ensures
            match e {
                Some((key, value)) => i < self.entries().len() && (key@, *value)
                    == self.entries()[i as int],
                None => i >= self.entries().len(),
            },
            distinct_keys(self.entries()),
    {
        proof {
            use_type_invariant(self);
        }
        if i < self.entries.len() {
            Some((&self.entries[i].0, &self.entries[i].1))
        } else {
            None
        }
    }

    /// The place of `key` among the entries, if the map has that key.
    pub fn index_of(&self, key: &str) -> (found: Option<usize>)
        ensures
            match found {
                Some(i) => has_key(self.entries(), key@) && i == position(self.entries(), key@),
                None => !has_key(self.entries(), key@),
            },
            distinct_keys(self.entries()),
    {
        proof {
            use_type_invariant(self);
        }
        let wanted = String::from_str(key);
        let mut i: usize = 0;
        while i < self.entries.len()
            invariant
                i <= self.entries().len(),
                self.entries().len() == self.entries@.len(),
                wanted@ == key@,
                forall|j: int| 0 <= j < i ==> (#[trigger] self.entries()[j]).0 != key@,
                distinct_keys(self.entries()),
            decreases self.entries().len() - i,
        {
            assert(self.entries()[i as int].0 == self.entries@[i as int].0@);
            if self.entries[i].0 == wanted {
                proof {
                    lemma_position(self.entries(), i as int);
                }
                return Some(i);
            }
            i += 1;
        }
        None
    }

    /// The value of `key`, if the map has that key.
    pub fn get(&self, key: &str) -> (value: Option<&V>)
        ensures
            match value {
                Some(v) => entries_get(self.entries(), key@) == Some(*v),
                None => entries_get(self.entries(), key@) is None,
            },
            distinct_keys(self.entries()),
    {
        match self.index_of(key) {
            Some(i) => Some(&self.entries[i].1),
            None => None,
        }
    }

    /// True when the map has `key`.
    pub fn contains_key(&self, key: &str) -> (b: bool)
        ensures
            b == has_key(self.entries(), key@),
            distinct_keys(self.entries()),
    {
        self.index_of(key).is_some()
    }

    /// Sets the value of `key`. A key that is already there keeps its place
    /// and gets the new value; a new key goes to the end.
    pub fn insert(&mut self, key: String, value: V)
        ensures
            final(self).entries() == entries_insert(old(self).entries(), key@, value),
            final(self)@ == old(self)@.insert(key@, value),
            distinct_keys(old(self).entries()),
            distinct_keys(final(self).entries()),
    {
        proof {
            use_type_invariant(&*self);
            lemma_insert(self.entries(), key@, value);
        }
        let found = self.index_of(key.as_str());
        let ghost before = self.entries();
        let mut entries: Vec<(String, V)> = Vec::new();
        core::mem::swap(&mut self.entries, &mut entries);
        assert(self.entries() =~= Seq::<(Seq<char>, V)>::empty());
        match found {
            Some(i) => {
                entries.set(i, (key, value));
            },
            None => {
                entries.push((key, value));
            },
        }
        proof {
            let after = Seq::new(entries@.len(), |i: int| (entries@[i].0@, entries@[i].1));
            assert(after =~= entries_insert(before, key@, value));
        }
        self.entries = entries;
    }

    /// Adds an entry whose key the map does not have yet.
    pub(crate) fn push_fresh(&mut self, key: String, value: V)
        requires
            !has_key(old(self).entries(), key@),
        ensures
            final(self).entries() == old(self).entries().push((key@, value)),
            distinct_keys(old(self).entries()),
            distinct_keys(final(self).entries()),
    {
        proof {
            use_type_invariant(&*self);
            lemma_insert(self.entries(), key@, value);
        }
        let ghost before = self.entries();
        let mut entries: Vec<(String, V)> = Vec::new();
        core::mem::swap(&mut self.entries, &mut entries);
        assert(self.entries() =~= Seq::<(Seq<char>, V)>::empty());
        entries.push((key, value));
        proof {
            let after = Seq::new(entries@.len(), |i: int| (entries@[i].0@, entries@[i].1));
            assert(after =~= before.push((key@, value)));
        }
        self.entries = entries;
    }

    /// Takes `key` out of the map and returns its value, if the map has that
    /// key. The other entries keep their order.
    pub fn remove(&mut self, key: &str) -> (value: Option<V>)
        ensures
            value == entries_get(old(self).entries(), key@),
            final(self).entries() == entries_remove(old(self).entries(), key@),
            final(self)@ == old(self)@.remove(key@),
            distinct_keys(old(self).entries()),
            distinct_keys(final(self).entries()),
    {
        proof {
            use_type_invariant(&*self);
            lemma_remove(self.entries(), key@);
        }
        let ghost before = self.entries();
        match self.index_of(key) {
            Some(i) => {
                let mut entries: Vec<(String, V)> = Vec::new();
                core::mem::swap(&mut self.entries, &mut entries);
                assert(self.entries() =~= Seq::<(Seq<char>, V)>::empty());
                let entry = entries.remove(i);
                proof {
                    let after = Seq::new(entries@.len(), |i: int| (entries@[i].0@, entries@[i].1));
                    assert(after =~= entries_remove(before, key@));
                }
                self.entries = entries;
                Some(entry.1)
            },
            None => None,
        }
    }
}

} // verus!
