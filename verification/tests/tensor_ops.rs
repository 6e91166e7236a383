//! Shape, storage and tensor behaviour seen through the public interface.

use neural_core::error::Error;
use neural_core::shape::Shape;
use neural_core::storage::Storage;
use neural_core::tensor::Tensor;

#[test]
fn shape_reports_dims_and_element_count() {
    let s = Shape::<4>::new([2, 3, 4, 5]);
    assert_eq!(s.element_count(), 120);
    assert_eq!(s.dim(0), 2);
    assert_eq!(s.dim(1), 3);
    assert_eq!(s.dim(2), 4);
    assert_eq!(s.dim(3), 5);
    let t = Shape::<4>::new([2, 3, 4, 5]);
    assert!(s.same_dims(&t));
    let u = Shape::<4>::new([2, 3, 4, 6]);
    assert!(!s.same_dims(&u));
    assert!(s == t);
    assert!(s != u);
}

#[test]
fn clone_copies_elements_and_leaves_original() {
    let s = Shape::<4>::new([1, 1, 1, 3]);
    let mut t = Tensor::<i64, 4, 64>::new(s, 2);
    let c = t.clone();
    t.set_linear(0, 9);
    assert_eq!(t.get_linear(0), 9);
    assert_eq!(c.get_linear(0), 2);
    assert_eq!(c.get_linear(2), 2);
}

#[test]
fn fresh_tensor_is_zero_filled() {
    let s = Shape::<4>::new([1, 2, 2, 2]);
    let t = Tensor::<i64, 4, 64>::new(s, 0);
    assert_eq!(t.element_count(), 8);
    for k in 0..8 {
        assert_eq!(t.get_linear(k), 0);
    }
    assert_eq!(t.get(&[0, 1, 1, 1]), 0);
}

#[test]
fn take_rejects_mismatched_storage() {
    let s = Shape::<4>::new([1, 2, 2, 2]);
    let storage = Storage::<i64, 64>::fresh_owned(7, 1);
    let r = Tensor::<i64, 4, 64>::take(s, storage);
    assert_eq!(r.err(), Some(Error::ShapeStorageMismatch));
}

#[test]
fn take_adopts_elements_unchanged() {
    let buf: Vec<i64> = vec![10, 20, 30, 40, 50, 60];
    let storage = Storage::<i64, 64>::adopt_owned(6, buf).unwrap();
    let s = Shape::<4>::new([1, 1, 2, 3]);
    let t = Tensor::<i64, 4, 64>::take(s, storage).unwrap();
    let expected = [10i64, 20, 30, 40, 50, 60];
    for h in 0..2 {
        for w in 0..3 {
            assert_eq!(t.get(&[0, 0, h, w]), expected[h * 3 + w]);
        }
    }
    for k in 0..6 {
        assert_eq!(t.get_linear(k), expected[k]);
    }
}

#[test]
fn inline_storage_respects_capacity() {
    let r = Storage::<i64, 4>::fresh_inline(5, 0);
    assert_eq!(r.err(), Some(Error::CapacityExceeded));
    let ok = Storage::<i64, 4>::fresh_inline(4, 7).unwrap();
    assert_eq!(ok.len(), 4);
    assert_eq!(ok.get(3), 7);

    let r = Storage::<i64, 4>::adopt_inline(3, vec![1, 2]);
    assert_eq!(r.err(), Some(Error::ShapeStorageMismatch));
    let r = Storage::<i64, 4>::adopt_inline(5, vec![1, 2, 3, 4, 5]);
    assert_eq!(r.err(), Some(Error::CapacityExceeded));
    let ok = Storage::<i64, 4>::adopt_inline(3, vec![1, 2, 3]).unwrap();
    assert_eq!(ok.len(), 3);
    assert_eq!(ok.get(1), 2);
}

#[test]
fn inline_tensor_respects_capacity() {
    let s = Shape::<4>::new([1, 2, 2, 2]);
    let r = Tensor::<i64, 4, 4>::new_inline(s, 0);
    assert_eq!(r.err(), Some(Error::CapacityExceeded));
    let s = Shape::<4>::new([1, 1, 2, 2]);
    let t = Tensor::<i64, 4, 4>::new_inline(s, 5).unwrap();
    assert_eq!(t.element_count(), 4);
    assert_eq!(t.get_linear(0), 5);
}

#[test]
fn set_then_get_round_trips() {
    let s = Shape::<4>::new([2, 2, 2, 2]);
    let mut t = Tensor::<i64, 4, 64>::new(s, 0);
    t.set(&[1, 0, 1, 0], 42);
    assert_eq!(t.get(&[1, 0, 1, 0]), 42);
    assert_eq!(t.get(&[1, 0, 1, 1]), 0);
    assert_eq!(t.get(&[0, 0, 1, 0]), 0);
    // row-major: the last dimension varies fastest
    assert_eq!(t.linear_index(&[1, 0, 1, 0]), 8 + 2);
    assert_eq!(t.get_linear(10), 42);
}

#[test]
fn storage_set_overwrites_single_slot() {
    let mut st = Storage::<i64, 8>::fresh_owned(3, 1);
    st.set(1, 9);
    assert_eq!(st.get(0), 1);
    assert_eq!(st.get(1), 9);
    assert_eq!(st.get(2), 1);
}
