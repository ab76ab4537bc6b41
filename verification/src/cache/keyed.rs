//! A small map from text keys to values that remembers the order in which
//! its keys arrived.

use vstd::prelude::*;

verus! {

/// No key occurs twice.
pub open spec fn distinct_keys<T>(entries: Seq<(Seq<char>, T)>) -> bool {
    forall|i: int, j: int|
        0 <= i < j < entries.len() ==> (#[trigger] entries[i]).0 != (#[trigger] entries[j]).0
}

/// `key` is bound at position `at`.
pub open spec fn bound_at<T>(entries: Seq<(Seq<char>, T)>, key: Seq<char>, at: int) -> bool {
    0 <= at < entries.len() && entries[at].0 == key
}

/// `key` is bound somewhere.
pub open spec fn has_key<T>(entries: Seq<(Seq<char>, T)>, key: Seq<char>) -> bool {
    exists|at: int| bound_at(entries, key, at)
}

/// A position at which `key` is bound; the only one where keys are distinct.
pub open spec fn position_of<T>(entries: Seq<(Seq<char>, T)>, key: Seq<char>) -> int {
    choose|at: int| bound_at(entries, key, at)
}

/// The value bound to `key`, if any.
pub open spec fn value_of<T>(entries: Seq<(Seq<char>, T)>, key: Seq<char>) -> Option<T> {
    if has_key(entries, key) {
        Some(entries[position_of(entries, key)].1)
    } else {
        None
    }
}

/// `entries` with `key` bound to `value`: in place where the key was bound
/// already, at the end where it was not.
pub open spec fn with_binding<T>(entries: Seq<(Seq<char>, T)>, key: Seq<char>, value: T) -> Seq<
    (Seq<char>, T),
> {
    if has_key(entries, key) {
        entries.update(position_of(entries, key), (key, value))
    } else {
        entries.push((key, value))
    }
}

/// `entries` without the binding of `key`.
pub open spec fn without_key<T>(entries: Seq<(Seq<char>, T)>, key: Seq<char>) -> Seq<
    (Seq<char>, T),
> {
    if has_key(entries, key) {
        entries.remove(position_of(entries, key))
    } else {
        entries
    }
}

/// Where keys are distinct, a key is bound at one position only.
pub proof fn lemma_position_unique<T>(entries: Seq<(Seq<char>, T)>, key: Seq<char>, at: int)
    requires
        distinct_keys(entries),
        bound_at(entries, key, at),
    ensures
        has_key(entries, key),
        position_of(entries, key) == at,
{
    let other = position_of(entries, key);
    assert(bound_at(entries, key, other));
    if other < at {
        assert(entries[other].0 != entries[at].0);
    } else if at < other {
        assert(entries[at].0 != entries[other].0);
    }
}

/// Binding a key keeps the keys distinct, binds the key to the value and
/// leaves every other key as it was.
pub proof fn lemma_with_binding<T>(entries: Seq<(Seq<char>, T)>, key: Seq<char>, value: T)
    requires
        distinct_keys(entries),
    ensures
        distinct_keys(with_binding(entries, key, value)),
        value_of(with_binding(entries, key, value), key) == Some(value),
        forall|other: Seq<char>|
            other != key ==> value_of(with_binding(entries, key, value), other) == value_of(
                entries,
                other,
            ),
{
    let after = with_binding(entries, key, value);
    let at = if has_key(entries, key) {
        position_of(entries, key)
    } else {
        entries.len() as int
    };
    if has_key(entries, key) {
        assert(bound_at(entries, key, at));
    }
    assert(bound_at(after, key, at));
    assert forall|i: int, j: int| 0 <= i < j < after.len() implies (#[trigger] after[i]).0 != (
    #[trigger] after[j]).0 by {
        if has_key(entries, key) {
            assert(entries[i].0 != entries[j].0);
        } else if j == entries.len() {
            assert(!bound_at(entries, key, i));
        } else {
            assert(entries[i].0 != entries[j].0);
        }
    }
    lemma_position_unique(after, key, at);
    assert forall|other: Seq<char>| other != key implies value_of(after, other) == value_of(
        entries,
        other,
    ) by {
        if has_key(entries, other) {
            let p = position_of(entries, other);
            assert(bound_at(entries, other, p));
            assert(bound_at(after, other, p));
            lemma_position_unique(after, other, p);
        } else if has_key(after, other) {
            let p = position_of(after, other);
            assert(bound_at(after, other, p));
            assert(bound_at(entries, other, p));
        }
    }
}

/// Removing a key keeps the keys distinct, unbinds the key and leaves every
/// other key as it was.
pub proof fn lemma_without_key<T>(entries: Seq<(Seq<char>, T)>, key: Seq<char>)
    requires
        distinct_keys(entries),
    ensures
        distinct_keys(without_key(entries, key)),
        !has_key(without_key(entries, key), key),
        forall|other: Seq<char>|
            other != key ==> value_of(without_key(entries, key), other) == value_of(entries, other),
{
    let after = without_key(entries, key);
    if has_key(entries, key) {
        let at = position_of(entries, key);
        assert(bound_at(entries, key, at));
        assert forall|i: int, j: int| 0 <= i < j < after.len() implies (#[trigger] after[i]).0 != (
        #[trigger] after[j]).0 by {
            let a = if i < at { i } else { i + 1 };
            let b = if j < at { j } else { j + 1 };
            assert(entries[a].0 != entries[b].0);
        }
        if has_key(after, key) {
            let p = position_of(after, key);
            assert(bound_at(after, key, p));
            let q = if p < at { p } else { p + 1 };
            assert(bound_at(entries, key, q));
            lemma_position_unique(entries, key, q);
        }
        assert forall|other: Seq<char>| other != key implies value_of(after, other) == value_of(
            entries,
            other,
        ) by {
            if has_key(entries, other) {
                let p = position_of(entries, other);
                assert(bound_at(entries, other, p));
                let q = if p < at { p } else { p - 1 };
                assert(bound_at(after, other, q));
                lemma_position_unique(after, other, q);
            } else if has_key(after, other) {
                let p = position_of(after, other);
                assert(bound_at(after, other, p));
                let q = if p < at { p } else { p + 1 };
                assert(bound_at(entries, other, q));
            }
        }
    }
}

/// A map from text keys to values, kept as a list of bindings in the order
/// in which the keys were first bound.
#[derive(Debug)]
pub struct KeyedList<V> {
    pub pairs: Vec<(String, V)>,
}

impl<V: View> KeyedList<V> {
    /// The bindings as values, in order.
    pub open spec fn entries(&self) -> Seq<(Seq<char>, V::V)> {
        self.pairs@.map_values(|pair: (String, V)| (pair.0@, pair.1@))
    }

    /// No key is bound twice.
    pub open spec fn wf(&self) -> bool {
        distinct_keys(self.entries())
    }

    /// A list without bindings.
    pub fn new() -> (list: Self)
        ensures
            list.entries() == Seq::<(Seq<char>, V::V)>::empty(),
            list.wf(),
    {
        let list = KeyedList { pairs: Vec::new() };
        assert(list.entries() =~= Seq::empty());
        list
    }

    /// Number of bindings.
    pub fn len(&self) -> (count: usize)
        ensures
            count == self.entries().len(),
    {
        self.pairs.len()
    }

    /// The key of the binding at position `at`.
    pub fn key_at(&self, at: usize) -> (key: &String)
        requires
            at < self.entries().len(),
        ensures
            key@ == self.entries()[at as int].0,
    {
        &self.pairs[at].0
    }

    /// The value of the binding at position `at`.
    pub fn value_at(&self, at: usize) -> (value: &V)
        requires
            at < self.entries().len(),
        ensures
            value@ == self.entries()[at as int].1,
    {
        &self.pairs[at].1
    }

    /// The first position at which `key` is bound.
    pub fn position(&self, key: &String) -> (found: Option<usize>)
        ensures
            match found {
                Some(at) => bound_at(self.entries(), key@, at as int) && forall|i: int|
                    0 <= i < at ==> !bound_at(self.entries(), key@, i),
                None => !has_key(self.entries(), key@),
            },
    {
        let mut at: usize = 0;
        while at < self.pairs.len()
            invariant
                at <= self.pairs@.len(),
                forall|i: int| 0 <= i < at ==> !bound_at(self.entries(), key@, i),
            decreases self.pairs@.len() - at,
        {
            if self.pairs[at].0 == *key {
                return Some(at);
            }
            at += 1;
        }
        None
    }

    /// The value bound to `key`, if any.
    pub fn get(&self, key: &String) -> (found: Option<&V>)
        requires
            self.wf(),
        ensures
            match found {
                Some(value) => value_of(self.entries(), key@) == Some(value@),
                None => value_of(self.entries(), key@).is_none(),
            },
    {
        match self.position(key) {
            Some(at) => {
                proof {
                    lemma_position_unique(self.entries(), key@, at as int);
                }
                Some(&self.pairs[at].1)
            },
            None => None,
        }
    }

    /// Binds `key` to `value`, in place of what it was bound to.
    pub fn insert(&mut self, key: String, value: V)
        requires
            old(self).wf(),
        ensures
            final(self).wf(),
            final(self).entries() == with_binding(old(self).entries(), key@, value@),
            value_of(final(self).entries(), key@) == Some(value@),
    {
        proof {
            lemma_with_binding(self.entries(), key@, value@);
        }
        match self.position(&key) {
            Some(at) => {
                proof {
                    lemma_position_unique(self.entries(), key@, at as int);
                }
                self.pairs.set(at, (key, value));
                assert(self.entries() =~= with_binding(old(self).entries(), key@, value@));
            },
            None => {
                self.pairs.push((key, value));
                assert(self.entries() =~= with_binding(old(self).entries(), key@, value@));
            },
        }
    }

    /// Takes the binding at position `at` out of the list.
    pub fn remove_at(&mut self, at: usize) -> (pair: (String, V))
        requires
            old(self).wf(),
            at < old(self).entries().len(),
        ensures
            final(self).wf(),
            final(self).entries() == old(self).entries().remove(at as int),
            (pair.0@, pair.1@) == old(self).entries()[at as int],
    {
        let pair = self.pairs.remove(at);
        proof {
            let before = old(self).entries();
            let after = self.entries();
            assert(after =~= before.remove(at as int));
            assert forall|i: int, j: int| 0 <= i < j < after.len() implies (#[trigger] after[i]).0
                != (#[trigger] after[j]).0 by {
                let a = if i < at { i } else { i + 1 };
                let b = if j < at { j } else { j + 1 };
                assert(before[a].0 != before[b].0);
            }
        }
        pair
    }

    /// Unbinds `key` and hands out what it was bound to.
    pub fn remove(&mut self, key: &String) -> (removed: Option<V>)
        requires
            old(self).wf(),
        ensures
            final(self).wf(),
            final(self).entries() == without_key(old(self).entries(), key@),
            !has_key(final(self).entries(), key@),
            match removed {
                Some(value) => value_of(old(self).entries(), key@) == Some(value@),
                None => value_of(old(self).entries(), key@).is_none(),
            },
    {
        proof {
            lemma_without_key(self.entries(), key@);
        }
        match self.position(key) {
            Some(at) => {
                proof {
                    lemma_position_unique(self.entries(), key@, at as int);
                }
                let pair = self.remove_at(at);
                Some(pair.1)
            },
            None => None,
        }
    }

    /// Drops every binding.
    pub fn clear(&mut self)
        ensures
            final(self).wf(),
            final(self).entries() == Seq::<(Seq<char>, V::V)>::empty(),
    {
        self.pairs.clear();
        assert(self.entries() =~= Seq::empty());
    }

    /// Tells whether no key is bound twice.
    pub fn is_well_formed(&self) -> (yes: bool)
        ensures
            yes == self.wf(),
    {
        let mut j: usize = 0;
        while j < self.pairs.len()
            invariant
                j <= self.pairs@.len(),
                forall|a: int, b: int|
                    0 <= a < b < j ==> (#[trigger] self.entries()[a]).0 != (
                    #[trigger] self.entries()[b]).0,
            decreases self.pairs@.len() - j,
        {
            let mut i: usize = 0;
            while i < j
                invariant
                    i <= j < self.pairs@.len(),
                    forall|a: int| 0 <= a < i ==> (#[trigger] self.entries()[a]).0
                        != self.entries()[j as int].0,
                decreases j - i,
            {
                if self.pairs[i].0 == self.pairs[j].0 {
                    assert(self.entries()[i as int].0 == self.entries()[j as int].0);
                    return false;
                }
                i += 1;
            }
            j += 1;
        }
        true
    }
}

} // verus!
