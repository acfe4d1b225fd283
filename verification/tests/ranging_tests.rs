//! Bit codec, packed storage, indexers and the set forms.

use ranging::abstra::NewEmptyLike;
use ranging::bool_slice::set::PackedSet;
use ranging::bool_slice::set::UnpackedSet;
use ranging::byte_slice::ByteSliceBoolIter;
use ranging::byte_slice::ByteSliceBoolStorage;
use ranging::byte_slice::get_bit;
use ranging::byte_slice::num_bits_to_bytes;
use ranging::byte_slice::set_bit;
use ranging::hash::set::HashedSet;
use ranging::index::Indexable;
use ranging::index::Indexer;
use ranging::index::RangeIndexer;
use ranging::set::SetOps;
use ranging::slices::BoolSlice;
use ranging::slices::ByteSlice;
use ranging::slices::CollectTo;
use ranging::slices::Slice;
use ranging::slices::SliceBackedChoice;
use ranging::slices::SliceClone;
use ranging::slices::SliceDefault;
use ranging::slices::check_empty_array_size;

#[test]
fn bit_round_trip() {
    // For every byte, position and value: the written bit reads back, and
    // every other bit is unchanged.
    for byte in 0..=255u8 {
        for position in 0..8usize {
            for value in [false, true] {
                let written = set_bit(byte, position, value);
                assert_eq!(get_bit(written, position), value);
                for other in 0..8usize {
                    if other != position {
                        assert_eq!(get_bit(written, other), get_bit(byte, other));
                    }
                }
            }
        }
    }
}

#[test]
fn capacity_boundary() {
    assert_eq!(num_bits_to_bytes(9), 2);
    assert_eq!(num_bits_to_bytes(8), 1);
    assert_eq!(num_bits_to_bytes(0), 0);
    assert_eq!(num_bits_to_bytes(1), 1);
    assert_eq!(num_bits_to_bytes(17), 3);
}

#[test]
fn check_empty_array_size_passes_through() {
    assert_eq!(check_empty_array_size(0), 0);
    assert_eq!(check_empty_array_size(5), 5);
}

#[test]
fn slice_backed_choice_predicates() {
    assert!(!SliceBackedChoice::Shared.is_owned());
    assert!(!SliceBackedChoice::Mutable.is_owned());
    assert!(SliceBackedChoice::Array.is_owned());
    assert!(SliceBackedChoice::Vec.is_owned());
    assert!(!SliceBackedChoice::VecRef.is_owned());
    assert!(SliceBackedChoice::Array.is_array());
    assert!(!SliceBackedChoice::Vec.is_array());
}

#[test]
fn index_round_trip() {
    let indexer = RangeIndexer::<u32>::new(&5);
    for key in [5u32, 6, 100, 4000] {
        assert_eq!(indexer.key(indexer.index(&key)), key);
    }
    assert_eq!(indexer.index(&5), 0);
    assert_eq!(indexer.key(3), 8);

    let from_zero = RangeIndexer::<u8>::new(&0);
    assert_eq!(from_zero.index(&200), 200);
    assert_eq!(from_zero.key(200), 200u8);

    assert_eq!(7u32.index(), 7);
    assert_eq!(u32::key(7), 7);
}

#[test]
fn packed_storage_bits() {
    let mut s = ByteSliceBoolStorage::from_default_to_array(10);
    assert_eq!(s.len(), 10);
    for i in 0..10 {
        assert_eq!(s.get(i), false);
    }
    s.set(9, &true);
    assert_eq!(s.get(9), true);
    assert_eq!(s.get(8), false);
    assert_eq!(s.check_and_set(9, &true), false);
    assert_eq!(s.check_and_set(9, &false), true);
    assert_eq!(s.get(9), false);
}

#[test]
fn packed_iter_truncates_to_logical_length() {
    // Nine logical bits over two bytes: the traversal yields exactly nine
    // booleans, never the padding bits of the final byte.
    let mut s = ByteSliceBoolStorage::from_default_to_vec(9);
    s.set(0, &true);
    s.set(8, &true);
    assert_eq!(
        s.iter(),
        vec![true, false, false, false, false, false, false, false, true]
    );

    let mut it = ByteSliceBoolIter::new(&s);
    let mut collected = Vec::new();
    while let Some(b) = it.next() {
        collected.push(b);
    }
    assert_eq!(collected.len(), 9);
    assert_eq!(
        collected,
        vec![true, false, false, false, false, false, false, false, true]
    );
}

#[test]
fn set_insert_remove_symmetry() {
    let storage = BoolSlice::from_default_to_array(3);
    let start: usize = 0;
    let mut set = UnpackedSet::<usize, RangeIndexer<usize>>::from_bool_slice(storage, &start);
    assert_eq!(set.insert(2), true);
    assert_eq!(set.contains(&2), true);
    assert_eq!(set.insert(2), false);
    assert_eq!(set.remove(&2), true);
    assert_eq!(set.remove(&2), false);
    assert_eq!(set.contains(&2), false);
}

#[test]
fn concrete_scenario() {
    // Capacity-10 unpacked set with start key 0.
    let storage = BoolSlice::from_default_to_array(10);
    let start: usize = 0;
    let mut set = UnpackedSet::<usize, RangeIndexer<usize>>::from_bool_slice(storage, &start);
    assert_eq!(set.insert(2), true);
    assert_eq!(set.insert(2), false);
    assert_eq!(set.contains(&2), true);
    assert_eq!(set.remove(&2), true);
    assert_eq!(set.remove(&2), false);
    assert_eq!(set.contains(&2), false);
    let mut it = set.iter();
    assert_eq!(it.next(), None);
}

fn collect_keys<I: Indexer<usize>>(
    it: &mut ranging::bool_flag::BoolFlagSetIter<usize, I>,
) -> Vec<usize> {
    let mut keys = Vec::new();
    while let Some(k) = it.next() {
        keys.push(k);
    }
    keys
}

#[test]
fn packed_unpacked_equivalence() {
    // The same operation sequence on a packed and an unpacked set of equal
    // capacity gives identical observable results.
    let start: usize = 0;
    let mut unpacked = UnpackedSet::<usize, RangeIndexer<usize>>::from_bool_slice(
        BoolSlice::from_default_to_array(10),
        &start,
    );
    let mut packed = PackedSet::<usize, RangeIndexer<usize>>::from_bool_slice(
        ByteSliceBoolStorage::from_default_to_array(10),
        &start,
    );
    let inserts = [3usize, 7, 3, 9, 0];
    for key in inserts {
        assert_eq!(unpacked.insert(key), packed.insert(key));
    }
    for key in [3usize, 7, 4] {
        assert_eq!(unpacked.remove(&key), packed.remove(&key));
    }
    for key in 0..10usize {
        assert_eq!(unpacked.contains(&key), packed.contains(&key));
    }
    let unpacked_keys = collect_keys(&mut unpacked.iter());
    let packed_keys = collect_keys(&mut packed.iter());
    assert_eq!(unpacked_keys, packed_keys);
    assert_eq!(unpacked_keys, vec![0, 9]);
}

#[test]
fn set_with_nonzero_start_key() {
    let start: u8 = 10;
    let mut set = UnpackedSet::<u8, RangeIndexer<u8>>::from_bool_slice(
        BoolSlice::from_default_to_array(5),
        &start,
    );
    assert_eq!(set.insert(12), true);
    assert_eq!(set.contains(&12), true);
    assert_eq!(set.contains(&10), false);
    let mut it = set.iter();
    assert_eq!(it.next(), Some(12));
    assert_eq!(it.next(), None);
}

#[test]
fn insert_all_ignores_results() {
    let start: usize = 0;
    let mut set = UnpackedSet::<usize, RangeIndexer<usize>>::from_bool_slice(
        BoolSlice::from_default_to_array(6),
        &start,
    );
    set.insert_all(&vec![1, 3, 3, 5]);
    let mut it = set.iter();
    assert_eq!(it.next(), Some(1));
    assert_eq!(it.next(), Some(3));
    assert_eq!(it.next(), Some(5));
    assert_eq!(it.next(), None);
}

#[test]
fn idempotent_clone_array_storage() {
    // Cloning an owned fixed-length storage copies the contents; mutating
    // one side leaves the other untouched.
    let original = ByteSlice::from_array([1u8, 2, 3]);
    let mut copy = original.clone();
    assert_eq!(original.shared_slice(), copy.shared_slice());
    copy.set(0, &9);
    assert_eq!(original.shared_slice(), &[1, 2, 3]);
    assert_eq!(copy.shared_slice(), &[9, 2, 3]);
}

#[test]
fn idempotent_clone_vec_storage() {
    let mut original = ByteSlice::from_vec(vec![4u8, 5]);
    let copy = original.clone();
    assert_eq!(original.shared_slice(), copy.shared_slice());
    original.set(1, &0);
    assert_eq!(original.shared_slice(), &[4, 0]);
    assert_eq!(copy.shared_slice(), &[4, 5]);
}

#[test]
fn storage_conversions() {
    let s = ByteSlice::from_shared(&[7u8, 8]);
    let vec_based = s.to_vec_based();
    assert_eq!(vec_based.shared_slice(), &[7, 8]);
    let detached = vec_based.to_non_array_vec_based();
    assert_eq!(detached.shared_slice(), &[7, 8]);
    let array_based = detached.to_array_based();
    assert_eq!(array_based.shared_slice(), &[7, 8]);
}

#[test]
fn collect_to_storage() {
    let arr = vec![1u8, 2, 3].collect_to_array();
    assert_eq!(arr.shared_slice(), &[1, 2, 3]);
    let v = vec![4u8].collect_to(SliceBackedChoice::Vec);
    assert_eq!(v.shared_slice(), &[4]);
}

#[test]
fn generator_population() {
    let filled = BoolSlice::from_fn_to_array(|| true, 2);
    assert_eq!(filled.shared_slice(), &[true, true]);
    let sevens = ByteSlice::from_fn_to_vec(|| 7u8, 3);
    assert_eq!(sevens.shared_slice(), &[7, 7, 7]);
}

#[test]
fn packed_detached_twin() {
    let mut s = ByteSliceBoolStorage::from_default_to_array(4);
    s.set(2, &true);
    let twin = s.to_non_array_vec_based();
    assert_eq!(twin.iter(), vec![false, false, true, false]);
}

#[test]
fn new_like_and_empty_like() {
    let filled = BoolSlice::from_value_to_array(&true, 3);
    let twin = filled.new_like();
    assert_eq!(twin.shared_slice(), &[false, false, false]);

    let vec_backed = BoolSlice::from_vec(vec![true, true]);
    let empty_twin = vec_backed.new_empty_like();
    assert!(empty_twin.shared_slice().is_empty());

    let start: usize = 0;
    let set = UnpackedSet::<usize, RangeIndexer<usize>>::from_bool_slice(
        BoolSlice::from_value_to_array(&true, 4),
        &start,
    );
    let fresh = set.new_like();
    assert_eq!(fresh.contains(&0), false);
    assert_eq!(fresh.contains(&3), false);
}

#[test]
fn set_clone_is_independent() {
    let start: usize = 0;
    let mut set = UnpackedSet::<usize, RangeIndexer<usize>>::from_bool_slice(
        BoolSlice::from_default_to_array(4),
        &start,
    );
    set.insert(1);
    let mut copy = set.clone();
    assert_eq!(copy.contains(&1), true);
    copy.remove(&1);
    assert_eq!(set.contains(&1), true);
    assert_eq!(copy.contains(&1), false);
}

#[test]
fn hashed_set_basics() {
    let mut set: HashedSet<u32> = HashedSet::new();
    assert_eq!(set.insert(42), true);
    assert_eq!(set.insert(42), false);
    assert_eq!(set.contains(&42), true);
    assert_eq!(set.remove(&42), true);
    assert_eq!(set.remove(&42), false);
    assert_eq!(set.contains(&42), false);
}

#[test]
fn hashed_set_iteration_and_clone() {
    let set = HashedSet::<u32>::from_iter(vec![1, 2, 3, 2]);
    let mut seen = Vec::new();
    let mut it = set.iter();
    while let Some(k) = it.next() {
        seen.push(k);
    }
    seen.sort();
    assert_eq!(seen, vec![1, 2, 3]);

    let copy = set.clone();
    for k in [1u32, 2, 3] {
        assert!(copy.contains(&k));
    }
    assert!(!copy.contains(&4));

    let empty = set.new_empty_like();
    assert!(!empty.contains(&1));
    let fresh = set.new_like();
    assert!(!fresh.contains(&1));

    let mut with = HashedSet::new_with(std::collections::HashSet::from_iter([9u32]));
    assert!(with.contains(&9));
    with.insert_all(&vec![10, 11]);
    assert!(with.contains(&10) && with.contains(&11));
    assert!(HashedSet::<u32>::supports_iter_ref());
    assert!(!UnpackedSet::<usize, RangeIndexer<usize>>::supports_iter_ref());
    assert_eq!(with.iter_ref().count(), 3);
}

#[test]
fn accessors_and_remaining_constructors() {
    let mut s = ByteSlice::from_value(&3u8, 2, SliceBackedChoice::Array);
    assert_eq!(s.shared_slice(), &[3, 3]);
    s.mutable_slice()[0] = 1;
    assert_eq!(s.shared_slice(), &[1, 3]);

    let v = ByteSlice::from_value(&7u8, 2, SliceBackedChoice::Vec);
    assert_eq!(v.shared_slice(), &[7, 7]);

    let ordered = ByteSlice::from_iter_to(vec![1u8, 2], SliceBackedChoice::Array);
    assert_eq!(ordered.shared_slice(), &[1, 2]);

    let mut region = vec![5u8, 6];
    let mut borrowed = ByteSlice::from_vec_ref(&mut region);
    assert_eq!(borrowed.shared_slice(), &[5, 6]);
    borrowed.mutable_vec().push(7);
    assert_eq!(borrowed.shared_slice(), &[5, 6, 7]);

    let kept = borrowed.to_vec_based();
    assert_eq!(kept.shared_slice(), &[5, 6, 7]);
}

#[test]
fn packed_clone_and_empty_like() {
    let mut s = ByteSliceBoolStorage::from_default_to_vec(5);
    s.set(1, &true);
    let copy = s.clone();
    assert_eq!(copy.iter(), vec![false, true, false, false, false]);
    s.set(1, &false);
    assert_eq!(copy.iter(), vec![false, true, false, false, false]);
    assert_eq!(s.iter(), vec![false, false, false, false, false]);

    let twin = copy.new_empty_like();
    assert_eq!(twin.len(), 0);

    let fixed = ByteSliceBoolStorage::from_default_to_array(5);
    let fixed_twin = fixed.new_empty_like();
    assert_eq!(fixed_twin.iter(), vec![false, false, false, false, false]);
}
