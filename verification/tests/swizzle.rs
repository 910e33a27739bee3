use core_simd::swizzle::{
    index2_is_in_bounds, index_is_in_bounds, swizzle2_by, swizzle_by, xor_is_in_bounds,
};
use core_simd::{Simd, Swizzle, Swizzle2, Which};

#[test]
fn swizzle() {
    struct Index;
    impl Swizzle<4, 4> for Index {
        const INDEX: [usize; 4] = [2, 1, 3, 0];
        fn lemma_index_in_bounds() {}
    }
    impl Swizzle<4, 2> for Index {
        const INDEX: [usize; 2] = [1, 1];
        fn lemma_index_in_bounds() {}
    }

    let vector = Simd::from_array([2, 4, 1, 9]);
    assert_eq!(<Index as Swizzle<4, 4>>::swizzle(vector).to_array(), [1, 4, 9, 2]);
    assert_eq!(<Index as Swizzle<4, 2>>::swizzle(vector).to_array(), [4, 4]);
}

#[test]
fn reverse() {
    let a = Simd::from_array([1, 2, 3, 4]);
    assert_eq!(a.reverse().to_array(), [4, 3, 2, 1]);
}

#[test]
fn rotate() {
    let a = Simd::from_array([1, 2, 3, 4]);
    assert_eq!(a.rotate_lanes_left::<0>().to_array(), [1, 2, 3, 4]);
    assert_eq!(a.rotate_lanes_left::<1>().to_array(), [2, 3, 4, 1]);
    assert_eq!(a.rotate_lanes_left::<2>().to_array(), [3, 4, 1, 2]);
    assert_eq!(a.rotate_lanes_left::<3>().to_array(), [4, 1, 2, 3]);
    assert_eq!(a.rotate_lanes_left::<4>().to_array(), [1, 2, 3, 4]);
    assert_eq!(a.rotate_lanes_left::<5>().to_array(), [2, 3, 4, 1]);
    assert_eq!(a.rotate_lanes_right::<0>().to_array(), [1, 2, 3, 4]);
    assert_eq!(a.rotate_lanes_right::<1>().to_array(), [4, 1, 2, 3]);
    assert_eq!(a.rotate_lanes_right::<2>().to_array(), [3, 4, 1, 2]);
    assert_eq!(a.rotate_lanes_right::<3>().to_array(), [2, 3, 4, 1]);
    assert_eq!(a.rotate_lanes_right::<4>().to_array(), [1, 2, 3, 4]);
    assert_eq!(a.rotate_lanes_right::<5>().to_array(), [4, 1, 2, 3]);
}

#[test]
fn interleave() {
    let a = Simd::from_array([0, 1, 2, 3, 4, 5, 6, 7]);
    let b = Simd::from_array([8, 9, 10, 11, 12, 13, 14, 15]);
    let (lo, hi) = a.interleave(b);
    assert_eq!(lo.to_array(), [0, 8, 1, 9, 2, 10, 3, 11]);
    assert_eq!(hi.to_array(), [4, 12, 5, 13, 6, 14, 7, 15]);
    let (even, odd) = lo.deinterleave(hi);
    assert_eq!(even, a);
    assert_eq!(odd, b);
}

#[test]
fn interleave_one() {
    let a = Simd::from_array([0]);
    let b = Simd::from_array([1]);
    let (lo, hi) = a.interleave(b);
    assert_eq!(lo.to_array(), [0]);
    assert_eq!(hi.to_array(), [1]);
    let (even, odd) = lo.deinterleave(hi);
    assert_eq!(even, a);
    assert_eq!(odd, b);
}

#[test]
fn slice() {
    let a = Simd::from_array([0, 1, 2, 3, 4, 5, 6, 7]);
    let [lo, hi] = a.split_to::<4>();
    assert_eq!(lo.to_array(), [0, 1, 2, 3]);
    assert_eq!(hi.to_array(), [4, 5, 6, 7]);
}

#[test]
fn concat_equal_width() {
    let x = Simd::from_array([0, 1, 2, 3]);
    let y = Simd::from_array([4, 5, 6, 7]);
    let z = x.concat_to::<8>(y);
    assert_eq!(z.to_array(), [0, 1, 2, 3, 4, 5, 6, 7]);
}

#[test]
fn general_reverse() {
    let x = Simd::from_array([0, 1, 2, 3, 4, 5, 6, 7]);
    // Swap adjacent lanes:
    assert_eq!(x.general_reverse::<1>().to_array(), [1, 0, 3, 2, 5, 4, 7, 6]);
    // Swap lanes separated by distance 2:
    assert_eq!(x.general_reverse::<2>().to_array(), [2, 3, 0, 1, 6, 7, 4, 5]);
    // Swap lanes separated by distance 4:
    assert_eq!(x.general_reverse::<4>().to_array(), [4, 5, 6, 7, 0, 1, 2, 3]);
    // Reverse lanes, within each 4-lane group:
    assert_eq!(x.general_reverse::<3>().to_array(), [3, 2, 1, 0, 7, 6, 5, 4]);
}

#[test]
fn general_reverse_sum() {
    let x = Simd::from_array([0u32, 1, 2, 3, 4, 5, 6, 7]);
    let total = x.reduce_sum();
    let x = x + x.general_reverse::<1>();
    let x = x + x.general_reverse::<2>();
    let x = x + x.general_reverse::<4>();
    assert_eq!(x.to_array(), [28, 28, 28, 28, 28, 28, 28, 28]);
    assert_eq!(total, 28);
}

#[test]
fn general_reverse_twice_is_identity() {
    let x = Simd::from_array([10u8, 11, 12, 13, 14, 15, 16, 17]);
    assert_eq!(x.general_reverse::<5>().general_reverse::<5>(), x);
    assert_eq!(x.general_reverse::<0>(), x);
    assert_eq!(x.general_reverse::<7>(), x.reverse());
}

#[test]
fn split_then_concat_and_back() {
    let a = Simd::from_array([1i16, 2, 3, 4]);
    let b = Simd::from_array([5i16, 6, 7, 8]);
    let [lo, hi] = a.concat_to::<8>(b).split_to::<4>();
    assert_eq!(lo, a);
    assert_eq!(hi, b);
    let whole = Simd::from_array([9u8, 8, 7, 6, 5, 4]);
    let [first, second] = whole.split_to::<3>();
    assert_eq!(first.concat_to::<6>(second), whole);
}

#[test]
fn deinterleave_then_interleave() {
    let a = Simd::from_array([0, 4, 1, 5]);
    let b = Simd::from_array([2, 6, 3, 7]);
    let (x, y) = a.deinterleave(b);
    assert_eq!(x.to_array(), [0, 1, 2, 3]);
    assert_eq!(y.to_array(), [4, 5, 6, 7]);
    let (lo, hi) = x.interleave(y);
    assert_eq!(lo, a);
    assert_eq!(hi, b);
}

#[test]
fn interleave_with_an_odd_number_of_lanes() {
    let a = Simd::from_array([0, 1, 2]);
    let b = Simd::from_array([10, 11, 12]);
    let (lo, hi) = a.interleave(b);
    assert_eq!(lo.to_array(), [0, 10, 1]);
    assert_eq!(hi.to_array(), [11, 2, 12]);
    let (even, odd) = lo.deinterleave(hi);
    assert_eq!(even, a);
    assert_eq!(odd, b);
}

#[test]
fn rotate_by_the_lane_count_is_identity() {
    let a = Simd::from_array([1u64, 2, 3, 4, 5]);
    assert_eq!(a.rotate_lanes_left::<5>(), a);
    assert_eq!(a.rotate_lanes_right::<5>(), a);
    assert_eq!(a.rotate_lanes_left::<12>().to_array(), [3, 4, 5, 1, 2]);
    assert_eq!(a.rotate_lanes_right::<12>().to_array(), [4, 5, 1, 2, 3]);
    assert_eq!(a.rotate_lanes_left::<2>().rotate_lanes_right::<2>(), a);
}

#[test]
fn swizzle_of_two_vectors() {
    struct Pick;
    impl Swizzle2<4, 4> for Pick {
        const INDEX: [Which; 4] =
            [Which::First(0), Which::First(1), Which::Second(2), Which::Second(3)];
        fn lemma_index_in_bounds() {}
    }
    impl Swizzle2<4, 2> for Pick {
        const INDEX: [Which; 2] = [Which::First(0), Which::Second(0)];
        fn lemma_index_in_bounds() {}
    }
    let a = Simd::from_array([0u32, 1, 2, 3]);
    let b = Simd::from_array([4u32, 5, 6, 7]);
    assert_eq!(<Pick as Swizzle2<4, 4>>::swizzle2(a, b).to_array(), [0, 1, 6, 7]);
    assert_eq!(<Pick as Swizzle2<4, 2>>::swizzle2(a, b).to_array(), [0, 4]);
    assert_eq!(swizzle_by(a, &[3, 1]).to_array(), [3, 1]);
    assert_eq!(swizzle2_by(a, b, &[Which::Second(3), Which::First(3)]).to_array(), [7, 3]);
}

#[test]
fn index_tables_out_of_range_are_recognised() {
    assert!(index_is_in_bounds(&[3, 0, 1, 2], 4));
    assert!(!index_is_in_bounds(&[3, 0, 4, 2], 4));
    assert!(index_is_in_bounds::<0>(&[], 0));
    assert!(index2_is_in_bounds(&[Which::First(3), Which::Second(0)], 4));
    assert!(!index2_is_in_bounds(&[Which::First(3), Which::Second(4)], 4));
    assert!(!index2_is_in_bounds(&[Which::First(4), Which::Second(0)], 4));
    assert!(xor_is_in_bounds(8, 7));
    assert!(!xor_is_in_bounds(8, 8));
    assert!(!xor_is_in_bounds(6, 1 << 2));
    assert!(xor_is_in_bounds(6, 1));
}
