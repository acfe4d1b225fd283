//! The hashed implementation of the set abstraction: a thin adapter over a
//! general hash table, for key domains too sparse or too large for dense
//! array indexing. No `Indexer` is involved; the table is keyed by the
//! domain type directly and grows without bound.

use crate::abstra::NewEmptyLike;
use crate::set::SetOps;
use crate::set::lemma_subrange_to_set_full;
use crate::set::lemma_subrange_to_set_step;
use core::hash::Hash;
use std::collections::HashSet;
use std::collections::hash_set;
use std::hash::RandomState;
use vstd::prelude::*;
use vstd::std_specs::hash::builds_valid_hashers;
use vstd::std_specs::hash::obeys_key_model;
use vstd::std_specs::iter::IteratorSpec;

verus! {

broadcast use vstd::std_specs::hash::group_hash_axioms;

/// A set delegating to a general hash table.
#[derive(Debug)]
pub struct HashedSet<T> {
    set: HashSet<T>,
}

impl<T: Hash + Eq + Copy> HashedSet<T> {
    /// An empty set.
    pub fn new() -> (r: Self)
        ensures
            r.key_set() == Set::<T>::empty(),
    {
        Self { set: HashSet::new() }
    }

    /// A set holding exactly the keys of `set`.
    pub fn new_with(set: HashSet<T>) -> (r: Self)
        ensures
            r.key_set() == set@,
    {
        Self { set }
    }

    /// A set holding exactly the given keys.
    pub fn from_iter(items: Vec<T>) -> (r: Self)
        requires
            obeys_key_model::<T>(),
            builds_valid_hashers::<RandomState>(),
        ensures
            r.key_set() == items@.to_set(),
    {
        let mut r = Self::new();
        r.insert_all(&items);
        proof {
            assert(r.key_set() =~= items@.to_set());
        }
        r
    }

    /// A fresh traversal of the member keys. The order is the hash table's
    /// own and carries no meaning; each key appears exactly once.
    pub fn iter(&self) -> (r: HashedSetIter<T>)
        requires
            self.wf(),
        ensures
            IteratorSpec::remaining(&r.set_iter).unref().to_set()
                == self.key_set(),
            IteratorSpec::remaining(&r.set_iter).no_duplicates(),
            IteratorSpec::remaining(&r.set_iter).len() == self.key_set().len(),
            IteratorSpec::decrease(&r.set_iter) is Some,
    {
        HashedSetIter { set_iter: self.set.iter() }
    }

    /// Reference-yielding traversal over the underlying table.
    pub fn iter_ref(&self) -> (r: hash_set::Iter<'_, T>)
        requires
            self.wf(),
        ensures
            IteratorSpec::remaining(&r).unref().to_set() == self.key_set(),
    {
        self.set.iter()
    }

    /// A new, empty set; capacity hints are not retained.
    pub fn new_like(&self) -> (r: Self)
        ensures
            r.key_set() == Set::<T>::empty(),
    {
        Self { set: HashSet::new() }
    }

    /// Deep copy via re-insertion of every key.
    pub fn clone(&self) -> (r: Self)
        requires
            self.wf(),
        ensures
            r.key_set() == self.key_set(),
    {
        let mut copy = Self::new();
        let mut it = self.iter();
        loop
            invariant
                self.wf(),
                copy.wf(),
                IteratorSpec::decrease(&it.set_iter) is Some,
                copy.key_set().union(IteratorSpec::remaining(&it.set_iter).unref().to_set())
                    == self.key_set(),
            decreases IteratorSpec::decrease(&it.set_iter)->0,
        {
            let ghost rem = IteratorSpec::remaining(&it.set_iter).unref();
            match it.next() {
                Some(v) => {
                    copy.insert(v);
                    proof {
                        crate::set::lemma_to_set_drop_first(rem);
                        assert(IteratorSpec::remaining(&it.set_iter).unref() =~= rem.drop_first());
                        assert(copy.key_set().union(rem.drop_first().to_set()) =~= self.key_set());
                    }
                },
                None => {
                    proof {
                        assert(rem.to_set() =~= Set::<T>::empty());
                        assert(copy.key_set() =~= self.key_set());
                    }
                    return copy;
                },
            }
        }
    }
}

impl<T: Hash + Eq + Copy> SetOps<T> for HashedSet<T> {
    /// The table behaves as modelled only when the key type hashes
    /// deterministically and the hasher is the standard valid one.
    open spec fn wf(&self) -> bool {
        obeys_key_model::<T>() && builds_valid_hashers::<RandomState>()
    }

    open spec fn can_hold(&self, value: T) -> bool {
        true
    }

    open spec fn can_mutate(&self) -> bool {
        true
    }

    closed spec fn key_set(&self) -> Set<T> {
        self.set@
    }

    fn contains(&self, value: &T) -> (r: bool) {
        self.set.contains(value)
    }

    fn insert(&mut self, value: T) -> (r: bool) {
        self.set.insert(value)
    }

    fn remove(&mut self, value: &T) -> (r: bool) {
        self.set.remove(value)
    }

    fn insert_all(&mut self, values: &Vec<T>) {
        let ghost pre = *self;
        let mut i: usize = 0;
        proof {
            lemma_subrange_to_set_full(values@);
            assert(pre.key_set().union(Seq::<T>::empty().to_set()) =~= pre.key_set());
        }
        while i < values.len()
            invariant
                i <= values@.len(),
                self.wf(),
                self.key_set() == pre.key_set().union(values@.subrange(0, i as int).to_set()),
            decreases values@.len() - i,
        {
            let v = values[i];
            self.insert(v);
            proof {
                lemma_subrange_to_set_step(values@, i as int);
                assert(self.key_set() =~= pre.key_set().union(
                    values@.subrange(0, i + 1).to_set(),
                ));
            }
            i = i + 1;
        }
        proof {
            assert(values@.subrange(0, values@.len() as int) =~= values@);
        }
    }

    fn supports_iter_ref() -> (r: bool) {
        true
    }
}

impl<T: Hash + Eq + Copy> NewEmptyLike for HashedSet<T> {
    open spec fn can_new_empty(&self) -> bool {
        true
    }

    fn new_empty_like(&self) -> (r: Self)
        ensures
            r.key_set() == Set::<T>::empty(),
    {
        Self { set: HashSet::new() }
    }
}

/// A traversal of a hashed set's member keys, in the table's own order.
pub struct HashedSetIter<'a, T: 'a> {
    /// The underlying table traversal.
    pub set_iter: hash_set::Iter<'a, T>,
}

impl<'a, T: Copy> HashedSetIter<'a, T> {
    /// The next member key, or nothing once every key has been yielded.
    pub fn next(&mut self) -> (r: Option<T>)
        ensures
            ({
                let before = IteratorSpec::remaining(&old(self).set_iter);
                let after = IteratorSpec::remaining(&final(self).set_iter);
                if before.len() > 0 {
                    r == Some(*before[0]) && after == before.drop_first()
                } else {
                    r is None && after == before
                }
            }),
            IteratorSpec::decrease(&old(self).set_iter) is Some <==> IteratorSpec::decrease(
                &final(self).set_iter,
            ) is Some,
            IteratorSpec::remaining(&old(self).set_iter).len() > 0 && IteratorSpec::decrease(
                &final(self).set_iter,
            ) is Some ==> (decreases_to!(
                IteratorSpec::decrease(&old(self).set_iter)->0 => IteratorSpec::decrease(
                    &final(self).set_iter,
                )->0
            )),
    {
        match advance_iter(&mut self.set_iter) {
            Some(v) => Some(*v),
            None => None,
        }
    }
}

/// Advance any specified iterator one step. The call stays generic so that
/// the standard iterator contract applies to it.
fn advance_iter<I: Iterator>(it: &mut I) -> (r: Option<I::Item>)
    ensures
        IteratorSpec::obeys_prophetic_iter_laws(final(it)) == IteratorSpec::obeys_prophetic_iter_laws(old(it)),
        IteratorSpec::obeys_prophetic_iter_laws(final(it)) ==> (IteratorSpec::decrease(old(it)) is Some
            <==> IteratorSpec::decrease(final(it)) is Some),
        IteratorSpec::obeys_prophetic_iter_laws(final(it)) && IteratorSpec::remaining(old(it)).len()
            > 0 && IteratorSpec::decrease(final(it)) is Some ==> (decreases_to!(
            IteratorSpec::decrease(old(it))->0 => IteratorSpec::decrease(final(it))->0
        )),
        IteratorSpec::obeys_prophetic_iter_laws(final(it)) ==> ({
            if IteratorSpec::remaining(old(it)).len() > 0 {
                &&& IteratorSpec::remaining(final(it)) == IteratorSpec::remaining(old(it)).drop_first()
                &&& r == Some(IteratorSpec::remaining(old(it))[0])
            } else {
                &&& IteratorSpec::remaining(final(it)) == IteratorSpec::remaining(old(it))
                &&& r is None
            }
        }),
{
    it.next()
}

} // verus!
