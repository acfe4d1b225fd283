//! Key-to-index translation. An `Indexer` maps keys of an orderable domain to
//! dense zero-based storage indices and back, given a start key that anchors
//! the base of a contiguous range. The indexer knows nothing about the
//! size or capacity of any collection using it: even where `key(...)`
//! succeeds, a particular collection may not be able to accept the result.

use vstd::prelude::*;

verus! {

/// Key types whose every value has one absolute, unique index. Useful so that
/// callers can plug their own types in without re-implementing `Indexer`.
pub trait Indexable: Sized + Copy {
    /// The absolute index of this value: unique per value, independent of any
    /// collection's start key or capacity.
    spec fn as_abs_index(&self) -> int;

    /// Which absolute indices correspond to a value of this type.
    spec fn abs_in_range(i: int) -> bool;

    /// The value at absolute index `i`.
    spec fn from_abs_index(i: int) -> Self;

    /// Every value sits at a representable absolute index, and that index
    /// maps back to the value.
    proof fn lemma_abs_index_round_trip(&self)
        ensures
            0 <= self.as_abs_index() <= usize::MAX,
            Self::abs_in_range(self.as_abs_index()),
            Self::from_abs_index(self.as_abs_index()) == *self,
    ;

    /// Every in-range absolute index is representable and carries exactly one
    /// value.
    proof fn lemma_abs_index_of_value(i: int)
        requires
            Self::abs_in_range(i),
        ensures
            0 <= i <= usize::MAX,
            Self::from_abs_index(i).as_abs_index() == i,
    ;

    /// The absolute index, unique per value.
    fn index(&self) -> (r: usize)
        ensures
            r == self.as_abs_index(),
    ;

    /// The value at absolute index `index`.
    fn key(index: usize) -> (r: Self)
        requires
            Self::abs_in_range(index as int),
        ensures
            r == Self::from_abs_index(index as int),
    ;
}

impl Indexable for usize {
    open spec fn as_abs_index(&self) -> int {
        *self as int
    }

    open spec fn abs_in_range(i: int) -> bool {
        0 <= i <= usize::MAX
    }

    open spec fn from_abs_index(i: int) -> Self {
        i as usize
    }

    proof fn lemma_abs_index_round_trip(&self) {
    }

    proof fn lemma_abs_index_of_value(i: int) {
    }

    fn index(&self) -> (r: usize) {
        *self
    }

    fn key(index: usize) -> (r: Self) {
        index
    }
}

impl Indexable for u8 {
    open spec fn as_abs_index(&self) -> int {
        *self as int
    }

    open spec fn abs_in_range(i: int) -> bool {
        0 <= i <= u8::MAX
    }

    open spec fn from_abs_index(i: int) -> Self {
        i as u8
    }

    proof fn lemma_abs_index_round_trip(&self) {
    }

    proof fn lemma_abs_index_of_value(i: int) {
    }

    fn index(&self) -> (r: usize) {
        *self as usize
    }

    fn key(index: usize) -> (r: Self) {
        index as u8
    }
}

impl Indexable for u16 {
    open spec fn as_abs_index(&self) -> int {
        *self as int
    }

    open spec fn abs_in_range(i: int) -> bool {
        0 <= i <= u16::MAX
    }

    open spec fn from_abs_index(i: int) -> Self {
        i as u16
    }

    proof fn lemma_abs_index_round_trip(&self) {
    }

    proof fn lemma_abs_index_of_value(i: int) {
    }

    fn index(&self) -> (r: usize) {
        *self as usize
    }

    fn key(index: usize) -> (r: Self) {
        index as u16
    }
}

impl Indexable for u32 {
    open spec fn as_abs_index(&self) -> int {
        *self as int
    }

    open spec fn abs_in_range(i: int) -> bool {
        0 <= i <= u32::MAX
    }

    open spec fn from_abs_index(i: int) -> Self {
        i as u32
    }

    proof fn lemma_abs_index_round_trip(&self) {
    }

    proof fn lemma_abs_index_of_value(i: int) {
    }

    fn index(&self) -> (r: usize) {
        *self as usize
    }

    fn key(index: usize) -> (r: Self) {
        index as u32
    }
}

/// Transforms a key to a collection-local index, and vice versa. A collection
/// stores its `Indexer` by value rather than by reference (the trait requires
/// `Copy`), keeping small containers compact.
pub trait Indexer<T>: Sized + Copy {
    /// Well-formedness of the indexer's internal state.
    spec fn wf(&self) -> bool;

    /// The absolute index corresponding to the start key.
    spec fn start(&self) -> int;

    /// The keys this indexer can translate to an index.
    spec fn key_in_range(&self, key: T) -> bool;

    /// The collection-local index of `key`.
    spec fn index_of(&self, key: T) -> int;

    /// The collection-local indices that carry a key.
    spec fn index_in_range(&self, i: int) -> bool;

    /// The key at collection-local index `i`.
    spec fn key_at(&self, i: int) -> T;

    /// Translation is a bijection between in-range keys and in-range indices:
    /// a key's index maps back to the key, and an index's key maps back to
    /// the index.
    proof fn lemma_round_trip(&self, key: T, i: int)
        requires
            self.wf(),
        ensures
            self.key_in_range(key) ==> 0 <= self.index_of(key) <= usize::MAX,
            self.key_in_range(key) ==> self.index_in_range(self.index_of(key)),
            self.key_in_range(key) ==> self.key_at(self.index_of(key)) == key,
            self.index_in_range(i) ==> self.key_in_range(self.key_at(i)),
            self.index_in_range(i) ==> self.index_of(self.key_at(i)) == i,
    ;

    /// 0-based index, specific to collections indexed by this instance.
    fn index(&self, key: &T) -> (r: usize)
        requires
            self.wf(),
            self.key_in_range(*key),
        ensures
            r == self.index_of(*key),
    ;

    /// The key at `index`; used to generate keys when iterating over a
    /// boolean-backed set.
    fn key(&self, index: usize) -> (r: T)
        requires
            self.wf(),
            self.index_in_range(index as int),
        ensures
            r == self.key_at(index as int),
    ;

    /// An indexer anchored at `start_key`, which gets index 0.
    fn new(start_key: &T) -> (r: Self)
        ensures
            r.wf(),
            r.key_in_range(*start_key),
            r.index_of(*start_key) == 0,
    ;
}

/// The `Indexer` for contiguous ranges of integer-like keys: index and key
/// differ from the start key's absolute index by plain offset arithmetic.
#[derive(Clone, Copy)]
pub struct RangeIndexer<T> {
    start_key: T,
    /// Absolute index of the value stored in `start_key`.
    start_index: usize,
}

impl<T: Indexable> Indexer<T> for RangeIndexer<T> {
    closed spec fn wf(&self) -> bool {
        self.start_index == self.start_key.as_abs_index()
    }

    closed spec fn start(&self) -> int {
        self.start_index as int
    }

    open spec fn key_in_range(&self, key: T) -> bool {
        self.start() <= key.as_abs_index()
    }

    open spec fn index_of(&self, key: T) -> int {
        key.as_abs_index() - self.start()
    }

    open spec fn index_in_range(&self, i: int) -> bool {
        0 <= i && self.start() + i <= usize::MAX && T::abs_in_range(self.start() + i)
    }

    open spec fn key_at(&self, i: int) -> T {
        T::from_abs_index(self.start() + i)
    }

    proof fn lemma_round_trip(&self, key: T, i: int) {
        key.lemma_abs_index_round_trip();
        if self.index_in_range(i) {
            T::lemma_abs_index_of_value(self.start() + i);
        }
    }

    fn index(&self, key: &T) -> (r: usize) {
        proof {
            key.lemma_abs_index_round_trip();
        }
        key.index() - self.start_index
    }

    fn key(&self, index: usize) -> (r: T) {
        T::key(self.start_index + index)
    }

    fn new(start_key: &T) -> (r: Self) {
        proof {
            start_key.lemma_abs_index_round_trip();
        }
        Self { start_key: *start_key, start_index: start_key.index() }
    }
}

/// Range-based key translation for user-defined types: like `Indexable`, but
/// relative to a base value, so that users can implement it for their types
/// without re-implementing `Indexer`.
pub trait RangeIndexable: Sized + Copy {
    /// The collection-local index of this value relative to `base`.
    fn index(&self, base: &Self) -> usize;

    /// The value at collection-local `index` under `indexer`.
    fn key(index: usize, indexer: &RangeIndexer<Self>) -> Self;
}

} // verus!
