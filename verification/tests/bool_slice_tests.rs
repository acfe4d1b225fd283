//! Unpacked bool slice storage.

use ranging::slices::BoolSlice;
use ranging::slices::Slice;
use ranging::slices::SliceDefault;

/// Assert that `bool_based_slice` has same size and items as `slice`.
fn assert_equal_items(bool_based_slice: &BoolSlice, slice: &[bool]) {
    let inner_slice = bool_based_slice.shared_slice();

    assert_eq!(inner_slice.len(), slice.len());
    assert_eq!(inner_slice, slice);
    for i in 0..slice.len() {
        assert_eq!(inner_slice[i], slice[i]);
    }
}

#[test]
fn construct_from_existing_data() {
    let mut array = [true, false];

    assert_equal_items(&BoolSlice::from_shared(&array), &[true, false]);
    assert_equal_items(&BoolSlice::from_mutable(&mut array), &[true, false]);
    assert_equal_items(&BoolSlice::from_array(array), &[true, false]);

    let vector = vec![true, false];
    assert_equal_items(&BoolSlice::from_vec(vector), &[true, false]);
}

#[test]
fn new_contains_initial_false() {
    assert_equal_items(&BoolSlice::from_default_to_array(1), &[false]);
}

#[test]
fn from_vec_etc() {
    // `from_vec_new()` starts empty, with nothing allocated.
    let mut bool_slice = BoolSlice::from_vec_new();
    assert!(bool_slice.shared_slice().is_empty());
    assert_eq!(bool_slice.mutable_vec().capacity(), 0);
    assert_equal_items(&bool_slice, &[]);

    let mut bool_slice = BoolSlice::from_vec_with_capacity(2);
    assert!(bool_slice.shared_slice().is_empty());
    assert!(bool_slice.mutable_vec().capacity() >= 2);
    assert_equal_items(&bool_slice, &[]);
}

#[test]
fn get() {}

#[test]
fn mod_construct_from_existing_data() {
    let mut array = [true, false];

    assert_equal_items(&BoolSlice::from_shared(&array), &[true, false]);
    assert_equal_items(&BoolSlice::from_mutable(&mut array), &[true, false]);
    assert_equal_items(&BoolSlice::from_array(array), &[true, false]);

    let vector = vec![true, false];
    assert_equal_items(&BoolSlice::from_vec(vector), &[true, false]);
}

#[test]
fn mod_new_contains_initial_false() {
    assert_equal_items(&BoolSlice::from_default_to_array(1), &[false]);
}

#[test]
fn mod_from_vec_etc() {
    let mut bool_slice = BoolSlice::from_vec_new();
    assert!(bool_slice.shared_slice().is_empty());
    assert_eq!(bool_slice.mutable_vec().capacity(), 0);
    assert_equal_items(&bool_slice, &[]);

    let mut bool_slice = BoolSlice::from_vec_with_capacity(2);
    assert!(bool_slice.shared_slice().is_empty());
    assert!(bool_slice.mutable_vec().capacity() >= 2);
    assert_equal_items(&bool_slice, &[]);
}

#[test]
fn mod_get() {}

#[test]
fn get_set_check_and_set() {
    let mut s = BoolSlice::from_default_to_array(3);
    assert_eq!(s.get(0), false);
    s.set(1, &true);
    assert_eq!(s.get(1), true);
    // Writing the same value back is not a modification.
    assert_eq!(s.check_and_set(1, &true), false);
    // Writing a different value is.
    assert_eq!(s.check_and_set(1, &false), true);
    assert_eq!(s.get(1), false);
    assert_eq!(s.iter(), vec![false, false, false]);
}
