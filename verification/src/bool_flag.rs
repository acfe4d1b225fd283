//! A set backed by an iterable storage of boolean flags: an `Indexer`
//! translates each key to a storage position, and the flag at that position
//! records membership. The storage may be unpacked (one slot per flag) or
//! bit-packed; both meet the same `Slice` contract, so one implementation
//! serves both.

use crate::index::Indexable;
use crate::index::Indexer;
use crate::index::RangeIndexer;
use crate::set::SetOps;
use crate::set::lemma_subrange_to_set_step;
use crate::set::lemma_subrange_to_set_full;
use crate::slices::Slice;
use crate::slices::SliceClone;
use crate::slices::SliceDefault;
use core::marker::PhantomData;
use vstd::prelude::*;

verus! {

/// The keys listed by an in-order walk of `flags` from position `pos`: each
/// set flag contributes the key at its position.
pub open spec fn spec_keys_from<T, I: Indexer<T>>(flags: Seq<bool>, indexer: I, pos: int) -> Seq<T>
    recommends
        0 <= pos <= flags.len(),
    decreases flags.len() - pos,
    when 0 <= pos <= flags.len()
{
    if pos >= flags.len() {
        Seq::empty()
    } else if flags[pos] {
        seq![indexer.key_at(pos)] + spec_keys_from(flags, indexer, pos + 1)
    } else {
        spec_keys_from(flags, indexer, pos + 1)
    }
}

/// Every set flag sits at a position that carries a key.
pub open spec fn flags_in_key_range<T, I: Indexer<T>>(flags: Seq<bool>, indexer: I) -> bool {
    forall|i: int| 0 <= i < flags.len() && flags[i] ==> indexer.index_in_range(i)
}

/// The mathematical set of keys recorded by `flags` under `indexer`,
/// restricted to positions at or after `pos`.
pub open spec fn spec_key_set_from<T, I: Indexer<T>>(
    flags: Seq<bool>,
    indexer: I,
    pos: int,
) -> Set<T> {
    Set::new(
        |k: T|
            indexer.key_in_range(k) && pos <= indexer.index_of(k) < flags.len() && flags[indexer.index_of(
                k,
            )],
    )
}

/// The in-order key walk lists exactly the recorded keys: its set of values
/// is the set of keys whose flag is set.
pub proof fn lemma_keys_from_to_set<T, I: Indexer<T>>(flags: Seq<bool>, indexer: I, pos: int)
    requires
        indexer.wf(),
        0 <= pos <= flags.len(),
        flags_in_key_range(flags, indexer),
    ensures
        spec_keys_from(flags, indexer, pos).to_set() == spec_key_set_from(flags, indexer, pos),
    decreases flags.len() - pos,
{
    if pos >= flags.len() {
        assert(Seq::<T>::empty().to_set() =~= Set::<T>::empty());
        assert(spec_keys_from(flags, indexer, pos).to_set() =~= spec_key_set_from(
            flags,
            indexer,
            pos,
        ));
    } else {
        lemma_keys_from_to_set(flags, indexer, pos + 1);
        let rest = spec_keys_from(flags, indexer, pos + 1);
        if flags[pos] {
            let head = indexer.key_at(pos);
            let whole = seq![head] + rest;
            assert forall|x: T| whole.to_set().contains(x) implies spec_key_set_from(
                flags,
                indexer,
                pos,
            ).contains(x) by {
                let j = choose|j: int| 0 <= j < whole.len() && whole[j] == x;
                if j == 0 {
                    indexer.lemma_round_trip(x, pos);
                } else {
                    assert(rest[j - 1] == x);
                    assert(rest.contains(x));
                    assert(rest.to_set().contains(x));
                }
            }
            assert forall|x: T| spec_key_set_from(flags, indexer, pos).contains(x) implies whole.to_set().contains(
                x,
            ) by {
                if indexer.index_of(x) == pos {
                    indexer.lemma_round_trip(x, pos);
                    assert(whole[0] == x);
                    assert(whole.contains(x));
                } else {
                    assert(spec_key_set_from(flags, indexer, pos + 1).contains(x));
                    assert(rest.to_set().contains(x));
                    let j = choose|j: int| 0 <= j < rest.len() && rest[j] == x;
                    assert(whole[j + 1] == x);
                    assert(whole.contains(x));
                }
            }
            assert(spec_keys_from(flags, indexer, pos).to_set() =~= spec_key_set_from(
                flags,
                indexer,
                pos,
            ));
        } else {
            assert forall|x: T| spec_key_set_from(flags, indexer, pos + 1).contains(x)
                <==> spec_key_set_from(flags, indexer, pos).contains(x) by {
                if indexer.key_in_range(x) && indexer.index_of(x) == pos {
                    assert(!flags[pos]);
                }
            }
            assert(spec_key_set_from(flags, indexer, pos + 1) =~= spec_key_set_from(
                flags,
                indexer,
                pos,
            ));
        }
    }
}

/// The in-order key walk lists each key at most once: distinct positions
/// carry distinct keys.
pub proof fn lemma_keys_from_no_duplicates<T, I: Indexer<T>>(flags: Seq<bool>, indexer: I, pos: int)
    requires
        indexer.wf(),
        0 <= pos <= flags.len(),
        flags_in_key_range(flags, indexer),
    ensures
        spec_keys_from(flags, indexer, pos).no_duplicates(),
    decreases flags.len() - pos,
{
    if pos >= flags.len() {
    } else {
        lemma_keys_from_no_duplicates(flags, indexer, pos + 1);
        if flags[pos] {
            lemma_keys_from_to_set(flags, indexer, pos + 1);
            let head = indexer.key_at(pos);
            let rest = spec_keys_from(flags, indexer, pos + 1);
            let whole = seq![head] + rest;
            indexer.lemma_round_trip(head, pos);
            assert(!rest.to_set().contains(head));
            assert forall|i: int, j: int| 0 <= i < j < whole.len() implies whole[i] != whole[j] by {
                if i == 0 {
                    assert(rest[j - 1] == whole[j]);
                    assert(rest.contains(whole[j]));
                    assert(rest.to_set().contains(whole[j]));
                } else {
                    assert(whole[i] == rest[i - 1] && whole[j] == rest[j - 1]);
                }
            }
        }
    }
}

/// A set backed by an iterable storage of boolean flags.
#[derive(Debug)]
pub struct BoolFlagSet<T, I, SL> {
    slice: SL,
    /// Stored owned, not by reference: good for CPU cache affinity.
    indexer: I,
    /// Ties instances to one key type, so sets of different key types do not
    /// mix.
    _items: PhantomData<T>,
}

impl<T: Copy, I: Indexer<T>, SL: Slice<bool>> BoolFlagSet<T, I, SL> {
    /// The boolean flags, in storage order.
    pub closed spec fn flags(&self) -> Seq<bool> {
        self.slice.contents()
    }

    /// The indexer translating keys to flag positions.
    pub closed spec fn indexer(&self) -> I {
        self.indexer
    }

    /// The backing storage.
    pub closed spec fn storage(&self) -> SL {
        self.slice
    }

    /// Every set flag corresponds to a key; required before iteration, which
    /// must translate each set position back to a key.
    pub open spec fn iterable(&self) -> bool {
        flags_in_key_range(self.flags(), self.indexer())
    }

    /// A fresh traversal of the member keys, in storage order.
    pub fn iter(&self) -> (r: BoolFlagSetIter<T, I>)
        requires
            self.wf(),
            self.iterable(),
        ensures
            r.wf(),
            r.remaining() == spec_keys_from(self.flags(), self.indexer(), 0),
            r.remaining().to_set() == self.key_set(),
            r.remaining().no_duplicates(),
    {
        let flags = self.slice.iter();
        let r = BoolFlagSetIter { flags, indexer: self.indexer, pos: 0, _items: PhantomData };
        proof {
            lemma_keys_from_to_set(self.flags(), self.indexer(), 0);
            lemma_keys_from_no_duplicates(self.flags(), self.indexer(), 0);
            assert(spec_key_set_from(self.flags(), self.indexer(), 0) =~= self.key_set());
        }
        r
    }
}

impl<T: Copy, I: Indexer<T>, SL: Slice<bool>> SetOps<T> for BoolFlagSet<T, I, SL> {
    open spec fn wf(&self) -> bool {
        self.indexer().wf() && self.storage().wf()
    }

    open spec fn can_hold(&self, value: T) -> bool {
        self.indexer().key_in_range(value) && self.indexer().index_of(value) < self.flags().len()
    }

    open spec fn can_mutate(&self) -> bool {
        self.storage().writable()
    }

    open spec fn key_set(&self) -> Set<T> {
        spec_key_set_from(self.flags(), self.indexer(), 0)
    }

    fn contains(&self, value: &T) -> (r: bool) {
        proof {
            self.indexer.lemma_round_trip(*value, 0);
        }
        self.slice.get(self.indexer.index(value))
    }

    fn insert(&mut self, value: T) -> (r: bool)
        ensures
            final(self).indexer() == old(self).indexer(),
            final(self).flags() == old(self).flags().update(
                old(self).indexer().index_of(value),
                true,
            ),
            final(self).storage().backing() == old(self).storage().backing(),
    {
        proof {
            self.indexer.lemma_round_trip(value, 0);
        }
        let ghost pre = *self;
        let index = self.indexer.index(&value);
        let r = self.slice.check_and_set(index, &true);
        proof {
            lemma_flag_update(pre.flags(), pre.indexer(), value, true);
        }
        r
    }

    fn remove(&mut self, value: &T) -> (r: bool)
        ensures
            final(self).indexer() == old(self).indexer(),
            final(self).flags() == old(self).flags().update(
                old(self).indexer().index_of(*value),
                false,
            ),
            final(self).storage().backing() == old(self).storage().backing(),
    {
        proof {
            self.indexer.lemma_round_trip(*value, 0);
        }
        let ghost pre = *self;
        let index = self.indexer.index(value);
        let r = self.slice.check_and_set(index, &false);
        proof {
            lemma_flag_update(pre.flags(), pre.indexer(), *value, false);
        }
        r
    }

    fn insert_all(&mut self, values: &Vec<T>)
        ensures
            final(self).indexer() == old(self).indexer(),
            final(self).storage().backing() == old(self).storage().backing(),
    {
        let ghost pre = *self;
        let mut i: usize = 0;
        proof {
            lemma_subrange_to_set_full(values@);
            assert(pre.key_set().union(Seq::<T>::empty().to_set()) =~= pre.key_set());
        }
        while i < values.len()
            invariant
                i <= values@.len(),
                self.wf(),
                self.can_mutate(),
                self.indexer() == pre.indexer(),
                self.storage().backing() == pre.storage().backing(),
                forall|j: int| 0 <= j < values@.len() ==> pre.can_hold(#[trigger] values@[j]),
                forall|k: T| #[trigger] self.can_hold(k) <==> pre.can_hold(k),
                self.key_set() == pre.key_set().union(values@.subrange(0, i as int).to_set()),
            decreases values@.len() - i,
        {
            let v = values[i];
            self.insert(v);
            proof {
                lemma_subrange_to_set_step(values@, i as int);
                assert(self.key_set() =~= pre.key_set().union(
                    values@.subrange(0, i + 1).to_set(),
                ));
            }
            i = i + 1;
        }
        proof {
            assert(values@.subrange(0, values@.len() as int) =~= values@);
        }
    }

    fn supports_iter_ref() -> (r: bool) {
        false
    }
}

/// Updating the flag of one key changes membership of that key alone: the
/// key set after the write is the key set before it, with `value` added or
/// removed.
proof fn lemma_flag_update<T, I: Indexer<T>>(flags: Seq<bool>, indexer: I, value: T, bit: bool)
    requires
        indexer.wf(),
        indexer.key_in_range(value),
        0 <= indexer.index_of(value) < flags.len(),
    ensures
        bit ==> spec_key_set_from(flags.update(indexer.index_of(value), true), indexer, 0)
            == spec_key_set_from(flags, indexer, 0).insert(value),
        !bit ==> spec_key_set_from(flags.update(indexer.index_of(value), false), indexer, 0)
            == spec_key_set_from(flags, indexer, 0).remove(value),
{
    let idx = indexer.index_of(value);
    let updated = flags.update(idx, bit);
    indexer.lemma_round_trip(value, idx);
    assert forall|k: T|
        spec_key_set_from(updated, indexer, 0).contains(k) <==> (if bit {
            spec_key_set_from(flags, indexer, 0).insert(value).contains(k)
        } else {
            spec_key_set_from(flags, indexer, 0).remove(value).contains(k)
        }) by {
        if indexer.key_in_range(k) {
            indexer.lemma_round_trip(k, 0);
            if indexer.index_of(k) == idx {
                assert(k == value);
            }
        }
    }
    if bit {
        assert(spec_key_set_from(updated, indexer, 0) =~= spec_key_set_from(
            flags,
            indexer,
            0,
        ).insert(value));
    } else {
        assert(spec_key_set_from(updated, indexer, 0) =~= spec_key_set_from(
            flags,
            indexer,
            0,
        ).remove(value));
    }
}

impl<T: Copy, I: Indexer<T>, SL: Slice<bool> + SliceDefault<bool>> BoolFlagSet<T, I, SL> {
    /// A set over the same key range whose storage is the logically-empty
    /// twin of this set's storage.
    pub fn new_like(&self) -> (r: Self)
        requires
            self.wf(),
            self.storage().backing() != crate::slices::SliceBackedChoice::Mutable,
            self.storage().backing() != crate::slices::SliceBackedChoice::VecRef,
        ensures
            r.wf(),
            r.indexer() == self.indexer(),
            r.flags() == self.storage().new_like_contents(),
    {
        BoolFlagSet {
            slice: self.slice.new_like(),
            indexer: self.indexer,
            _items: PhantomData,
        }
    }
}

impl<T: Copy, I: Indexer<T>, SL: Slice<bool> + SliceClone<bool>> BoolFlagSet<T, I, SL> {
    /// Deep copy: same members, independent storage. Implemented for
    /// owned-storage sets only; a growable-borrowed backing clones into a
    /// new owned growable one.
    pub fn clone(&self) -> (r: Self)
        requires
            self.wf(),
            self.storage().cloneable(),
        ensures
            r.wf(),
            r.indexer() == self.indexer(),
            r.flags() == self.flags(),
            r.key_set() == self.key_set(),
            r.can_mutate(),
    {
        BoolFlagSet { slice: self.slice.clone(), indexer: self.indexer, _items: PhantomData }
    }
}

impl<T: Copy + Indexable, SL: Slice<bool>> BoolFlagSet<T, RangeIndexer<T>, SL> {
    /// A set recording membership in `slice`, over the key range that starts
    /// at `start`.
    pub fn from_bool_slice(slice: SL, start: &T) -> (r: Self)
        requires
            slice.wf(),
        ensures
            r.wf(),
            r.flags() == slice.contents(),
            r.storage() == slice,
            r.indexer().key_in_range(*start),
            r.indexer().index_of(*start) == 0,
    {
        BoolFlagSet {
            slice,
            indexer: RangeIndexer::<T>::new(start),
            _items: PhantomData,
        }
    }
}

/// A traversal of a flag set's member keys: walks the flag positions in
/// storage order and yields the key of each set flag.
pub struct BoolFlagSetIter<T, I> {
    flags: Vec<bool>,
    /// Cloned and owned, not referenced: better for CPU cache affinity when
    /// indexers are small.
    indexer: I,
    /// Next flag position to examine.
    pos: usize,
    _items: PhantomData<T>,
}

impl<T: Copy, I: Indexer<T>> BoolFlagSetIter<T, I> {
    /// Internal consistency: the cursor is within bounds and every set flag
    /// still to be visited carries a key.
    pub closed spec fn wf(&self) -> bool {
        self.indexer.wf() && self.pos <= self.flags@.len() && flags_in_key_range(
            self.flags@,
            self.indexer,
        )
    }

    /// The keys this traversal has yet to yield, in order.
    pub closed spec fn remaining(&self) -> Seq<T> {
        spec_keys_from(self.flags@, self.indexer, self.pos as int)
    }

    /// The next member key, or nothing once the walk is complete.
    #[verifier::loop_isolation(false)]
    pub fn next(&mut self) -> (r: Option<T>)
        requires
            old(self).wf(),
        ensures
            final(self).wf(),
            old(self).remaining().len() > 0 ==> r == Some(old(self).remaining()[0])
                && final(self).remaining() == old(self).remaining().drop_first(),
            old(self).remaining().len() == 0 ==> r is None && final(self).remaining() == old(
                self,
            ).remaining(),
    {
        let ghost start = *self;
        loop
            invariant
                self.wf(),
                self.indexer == start.indexer,
                self.flags == start.flags,
                start.pos <= self.pos <= self.flags@.len(),
                spec_keys_from(self.flags@, self.indexer, self.pos as int) == start.remaining(),
            decreases self.flags@.len() - self.pos,
        {
            if self.pos < self.flags.len() {
                let index = self.pos;
                let value_present = self.flags[index];
                self.pos = index + 1;
                if value_present {
                    let key = self.indexer.key(index);
                    proof {
                        let rem = start.remaining();
                        let rest = spec_keys_from(start.flags@, start.indexer, index + 1);
                        assert(rem == spec_keys_from(start.flags@, start.indexer, index as int));
                        assert(rem == seq![start.indexer.key_at(index as int)] + rest);
                        assert(rem.len() == 1 + rest.len());
                        assert(rem[0] == start.indexer.key_at(index as int));
                        assert(rem.drop_first() =~= rest);
                        assert(self.remaining() == rest);
                    }
                    return Some(key);
                }
            } else {
                return None;
            }
        }
    }
}

} // verus!
