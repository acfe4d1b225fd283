//! Concrete range-indexed set forms: one per boolean storage strategy.

use crate::bool_flag::BoolFlagSet;
use crate::bool_flag::spec_keys_from;
use crate::index::Indexer;
use crate::set::SetOps;
use crate::byte_slice::ByteSliceBoolStorage;
use crate::slices::BoolSlice;
use vstd::prelude::*;

verus! {

/// Backed by a slice of booleans: one full storage slot per flag.
pub type UnpackedSet<T, I> = BoolFlagSet<T, I, BoolSlice>;

/// Backed by a packed slice of bits, rounded up to bytes: 8x less storage,
/// and less cache and memory bandwidth.
pub type PackedSet<T, I> = BoolFlagSet<T, I, ByteSliceBoolStorage>;

/// Packed and unpacked sets are observationally equivalent: every set
/// operation's contract is stated over the recorded flags and the indexer
/// alone, so two sets recording the same flags under the same indexer — one
/// bit-packed, one unpacked — hold the same keys, admit the same keys,
/// answer every membership test alike, and iterate to the same key
/// sequence. Applying the same operation to both therefore preserves all of
/// this, operation by operation.
pub proof fn lemma_packed_unpacked_equivalence<T: Copy, I: Indexer<T>>(
    packed: PackedSet<T, I>,
    unpacked: UnpackedSet<T, I>,
    key: T,
)
    requires
        packed.wf(),
        unpacked.wf(),
        packed.flags() == unpacked.flags(),
        packed.indexer() == unpacked.indexer(),
    ensures
        packed.key_set() == unpacked.key_set(),
        packed.can_hold(key) == unpacked.can_hold(key),
        packed.key_set().contains(key) == unpacked.key_set().contains(key),
        packed.iterable() == unpacked.iterable(),
        spec_keys_from(packed.flags(), packed.indexer(), 0) == spec_keys_from(
            unpacked.flags(),
            unpacked.indexer(),
            0,
        ),
        packed.flags().update(packed.indexer().index_of(key), true) == unpacked.flags().update(
            unpacked.indexer().index_of(key),
            true,
        ),
        packed.flags().update(packed.indexer().index_of(key), false) == unpacked.flags().update(
            unpacked.indexer().index_of(key),
            false,
        ),
{
}

} // verus!
