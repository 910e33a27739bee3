use core_simd::{Mask, Simd};

#[test]
fn gather_or() {
    let vec: Vec<i32> = vec![10, 11, 12, 13, 14, 15, 16, 17, 18];
    let idxs = Simd::from_array([9, 3, 0, 5]);
    let alt = Simd::from_array([-5, -4, -3, -2]);

    // The first lane is out of bounds.
    let result = Simd::gather_or(&vec, idxs, alt);
    assert_eq!(result, Simd::from_array([-5, 13, 10, 15]));
}

#[test]
fn gather_or_default() {
    let vec: Vec<i32> = vec![10, 11, 12, 13, 14, 15, 16, 17, 18];
    let idxs = Simd::from_array([9, 3, 0, 5]);

    let result = Simd::gather_or_default(&vec, idxs);
    assert_eq!(result, Simd::from_array([0, 13, 10, 15]));
}

#[test]
fn gather_select() {
    let vec: Vec<i32> = vec![10, 11, 12, 13, 14, 15, 16, 17, 18];
    let idxs = Simd::from_array([9, 3, 0, 5]);
    let alt = Simd::from_array([-5, -4, -3, -2]);
    let enable = Mask::from_array([true, true, true, false]);

    let result = Simd::gather_select(&vec, enable, idxs, alt);
    assert_eq!(result, Simd::from_array([-5, 13, 10, -2]));
}

#[test]
fn gather_select_unchecked() {
    let vec: Vec<i32> = vec![10, 11, 12, 13, 14, 15, 16, 17, 18];
    let idxs = Simd::from_array([9, 3, 0, 5]);
    let alt = Simd::from_array([-5, -4, -3, -2]);
    let enable = Mask::from_array([true, true, true, false]);
    // The lane that is out of bounds is left out before the gather.
    let in_bounds: Mask<isize, 4> = idxs.lanes_lt(Simd::splat(vec.len())).cast();
    let enable = enable & in_bounds;

    let result = Simd::gather_select_unchecked(&vec, enable, idxs, alt);
    assert_eq!(result, Simd::from_array([-5, 13, 10, -2]));
}

#[test]
fn gather_leaves_out_what_lies_outside() {
    let slice = [1u8, 2, 3];
    let idxs = Simd::from_array([usize::MAX, 3, 2, 0]);
    let or = Simd::from_array([100u8, 101, 102, 103]);

    // Disabled and out of bounds: the lane of `or`.
    let disabled = Mask::from_array([false, false, true, true]);
    assert_eq!(Simd::gather_select(&slice, disabled, idxs, or).to_array(), [100, 101, 3, 1]);

    // Enabled and out of bounds: still the lane of `or`.
    let enabled = Mask::splat(true);
    assert_eq!(Simd::gather_select(&slice, enabled, idxs, or).to_array(), [100, 101, 3, 1]);

    // An empty slice has no place within bounds.
    let empty: [u8; 0] = [];
    assert_eq!(Simd::gather_select(&empty, enabled, idxs, or), or);
    assert_eq!(Simd::gather_or(&empty, Simd::splat(0), or), or);
}

#[test]
fn scatter() {
    let mut vec: Vec<i32> = vec![10, 11, 12, 13, 14, 15, 16, 17, 18];
    let idxs = Simd::from_array([9, 3, 0, 0]);
    let vals = Simd::from_array([-27, 82, -41, 124]);

    // The place 0 is written twice; the later lane is kept.
    vals.scatter(&mut vec, idxs);
    assert_eq!(vec, vec![124, 11, 12, 82, 14, 15, 16, 17, 18]);
}

#[test]
fn scatter_select() {
    let mut vec: Vec<i32> = vec![10, 11, 12, 13, 14, 15, 16, 17, 18];
    let idxs = Simd::from_array([9, 3, 0, 0]);
    let vals = Simd::from_array([-27, 82, -41, 124]);
    let enable = Mask::from_array([true, true, true, false]);

    // The second write to the place 0 is masked.
    vals.scatter_select(&mut vec, enable, idxs);
    assert_eq!(vec, vec![-41, 11, 12, 82, 14, 15, 16, 17, 18]);
}

#[test]
fn scatter_select_unchecked() {
    let mut vec: Vec<i32> = vec![10, 11, 12, 13, 14, 15, 16, 17, 18];
    let idxs = Simd::from_array([9, 3, 0, 0]);
    let vals = Simd::from_array([-27, 82, -41, 124]);
    let enable = Mask::from_array([true, true, true, false]);
    let in_bounds: Mask<isize, 4> = idxs.lanes_lt(Simd::splat(vec.len())).cast();
    let enable = enable & in_bounds;

    vals.scatter_select_unchecked(&mut vec, enable, idxs);
    assert_eq!(vec, vec![-41, 11, 12, 82, 14, 15, 16, 17, 18]);
}

#[test]
fn scatter_with_colliding_lanes_keeps_one_of_them() {
    let mut slice = [0u16; 4];
    let idxs = Simd::from_array([2, 2, 2, 7, 1]);
    let vals = Simd::from_array([5u16, 6, 7, 8, 9]);
    vals.scatter(&mut slice, idxs);
    assert!([5, 6, 7].contains(&slice[2]));
    assert_eq!(slice[0], 0);
    assert_eq!(slice[1], 9);
    assert_eq!(slice[3], 0);
    assert_eq!(slice.len(), 4);

    let mut untouched = [1u16, 2, 3];
    vals.scatter_select(&mut untouched, Mask::splat(false), idxs);
    assert_eq!(untouched, [1, 2, 3]);
}
