use core_simd::lane_count::{is_supported_lane_count, MAX_LANES};
use core_simd::ops::{invalid_shift_rhs, LaneOp, PartialOp};
use core_simd::{
    HorizontalArith, Mask, Relation, Scalarize, Simd, SimdAbs, SimdInt, SimdOrd, SimdSignum,
    Vectorize,
};

#[test]
fn operators_wrap() {
    let x = Simd::from_array([i32::MIN, 0, 1, i32::MAX]);
    let max = Simd::splat(i32::MAX);
    assert_eq!(x + max, Simd::from_array([-1, i32::MAX, i32::MIN, -2]));
    let x = Simd::from_array([i32::MIN, -2, -1, i32::MAX]);
    assert_eq!(x - max, Simd::from_array([1, i32::MAX, i32::MIN, 0]));
    let y = Simd::from_array([i32::MIN, -2, 3, i32::MAX]);
    assert_eq!(-y, Simd::from_array([i32::MIN, 2, -3, i32::MIN + 1]));
    let u = Simd::from_array([250u8, 0, 16, 255]);
    assert_eq!(u + Simd::splat(10), Simd::from_array([4, 10, 26, 9]));
    assert_eq!(u - Simd::splat(1), Simd::from_array([249, 255, 15, 254]));
    assert_eq!(u * Simd::splat(16), Simd::from_array([160, 0, 0, 240]));
    let s = Simd::from_array([i8::MIN, -1, 64, 127]);
    assert_eq!(s * Simd::splat(2), Simd::from_array([0, -2, -128, -2]));
    assert_eq!(s * Simd::splat(-1), Simd::from_array([i8::MIN, 1, -64, -127]));
    let wide = Simd::from_array([u64::MAX, 1 << 63, 3]);
    assert_eq!(wide * Simd::splat(3), Simd::from_array([u64::MAX - 2, 1 << 63, 9]));
    let long = Simd::from_array([i64::MIN, i64::MAX, -7]);
    assert_eq!(long * Simd::splat(3), Simd::from_array([i64::MIN, i64::MAX - 2, -21]));
}

#[test]
fn bitwise_operators() {
    let a = Simd::<u32, 4>::splat(10);
    let b = Simd::<u32, 4>::splat(3);
    assert_eq!(a & b, Simd::splat(2));
    assert_eq!(a | b, Simd::splat(11));
    assert_eq!(a ^ b, Simd::splat(9));
    assert_eq!(!a, Simd::splat(!10u32));
    let s = Simd::from_array([-1i16, 0, 0x55]);
    assert_eq!(!s, Simd::from_array([0, -1, !0x55]));
    assert_eq!(a.combine(b, LaneOp::Xor), a ^ b);
}

#[test]
fn saturating_add() {
    let x = Simd::from_array([i32::MIN, 0, 1, i32::MAX]);
    let max = Simd::splat(i32::MAX);
    let sat = x.saturating_add(max);
    assert_eq!(sat, Simd::from_array([-1, i32::MAX, i32::MAX, i32::MAX]));
    let u = Simd::from_array([250u8, 5]);
    assert_eq!(u.saturating_add(Simd::splat(10)), Simd::from_array([255, 15]));
    let low = Simd::from_array([i8::MIN, -100]);
    assert_eq!(low.saturating_add(Simd::splat(-100)), Simd::from_array([i8::MIN, i8::MIN]));
}

#[test]
fn saturating_sub() {
    let x = Simd::from_array([i32::MIN, -2, -1, i32::MAX]);
    let max = Simd::splat(i32::MAX);
    let sat = x.saturating_sub(max);
    assert_eq!(sat, Simd::from_array([i32::MIN, i32::MIN, i32::MIN, 0]));
    let u = Simd::from_array([3u16, 50]);
    assert_eq!(u.saturating_sub(Simd::splat(10)), Simd::from_array([0, 40]));
    let high = Simd::from_array([i64::MAX, 100]);
    assert_eq!(high.saturating_sub(Simd::splat(-100)), Simd::from_array([i64::MAX, 200]));
}

#[test]
fn abs() {
    let xs = Simd::from_array([i32::MIN, i32::MIN + 1, -5, 0]);
    assert_eq!(xs.abs(), Simd::from_array([i32::MIN, i32::MAX, 5, 0]));
    assert_eq!(<Simd<i32, 4> as SimdAbs>::abs(xs), xs.abs());
    assert_eq!(<Simd<i32, 4> as SimdInt<i32>>::abs(xs), xs.abs());
}

#[test]
fn saturating_abs() {
    let xs = Simd::from_array([i32::MIN, -2, 0, 3]);
    let unsat = xs.abs();
    let sat = xs.saturating_abs();
    assert_eq!(unsat, Simd::from_array([i32::MIN, 2, 0, 3]));
    assert_eq!(sat, Simd::from_array([i32::MAX, 2, 0, 3]));
}

#[test]
fn saturating_neg() {
    let x = Simd::from_array([i32::MIN, -2, 3, i32::MAX]);
    let unsat = -x;
    let sat = x.saturating_neg();
    assert_eq!(unsat, Simd::from_array([i32::MIN, 2, -3, i32::MIN + 1]));
    assert_eq!(sat, Simd::from_array([i32::MAX, 2, -3, i32::MIN + 1]));
}

#[test]
fn signs() {
    let x = Simd::from_array([i16::MIN, -2, 0, 3, i16::MAX]);
    assert_eq!(x.signum(), Simd::from_array([-1, -1, 0, 1, 1]));
    assert_eq!(<Simd<i16, 5> as SimdSignum>::signum(x), x.signum());
    assert_eq!(x.is_positive().to_array(), [false, false, false, true, true]);
    assert_eq!(x.is_negative().to_array(), [true, true, false, false, false]);
}

#[test]
fn comparisons() {
    let a = Simd::from_array([1u8, 200, 3, 4]);
    let b = Simd::from_array([1u8, 2, 30, 4]);
    assert_eq!(a.lanes_eq(b).to_array(), [true, false, false, true]);
    assert_eq!(a.lanes_ne(b).to_array(), [false, true, true, false]);
    assert_eq!(a.lanes_lt(b).to_array(), [false, false, true, false]);
    assert_eq!(a.lanes_gt(b).to_array(), [false, true, false, false]);
    assert_eq!(a.lanes_le(b).to_array(), [true, false, true, true]);
    assert_eq!(a.lanes_ge(b).to_array(), [true, true, false, true]);
    assert_eq!(a.compare(b, Relation::GreaterOrEqual), a.lanes_ge(b));
    assert_eq!(a.min(b).to_array(), [1, 2, 3, 4]);
    assert_eq!(a.max(b).to_array(), [1, 200, 30, 4]);
    assert_eq!(a.simd_min(b), a.min(b));
    assert_eq!(a.simd_max(b), a.max(b));
    let s = Simd::from_array([-128i8, -1, 0, 127]);
    assert_eq!(s.lanes_lt(Simd::splat(0)).to_array(), [true, true, false, false]);
    assert_eq!(
        s.simd_clamp(Simd::splat(-10), Simd::splat(10)).to_array(),
        [-10, -1, 0, 10]
    );
}

#[test]
fn reductions() {
    let v = Simd::from_array([1i32, 2, 3, 4]);
    assert_eq!(v.reduce_sum(), 10);
    assert_eq!(v.reduce_product(), 24);
    assert_eq!(v.reduce_max(), 4);
    assert_eq!(v.reduce_min(), 1);
    assert_eq!(v.horizontal_sum(), 10);
    assert_eq!(v.horizontal_product(), 24);
    assert_eq!(v.horizontal_max(), 4);
    assert_eq!(v.horizontal_min(), 1);
    assert_eq!(<Simd<i32, 4> as HorizontalArith>::horizontal_sum(v), 10);
    assert_eq!(<Simd<i32, 4> as SimdInt<i32>>::reduce_sum(v), 10);
    assert_eq!(<Simd<i32, 4> as SimdInt<i32>>::reduce_min(v), 1);

    // Integer addition and multiplication wrap.
    let v = Simd::from_array([i32::MAX, 1, 0, 0]);
    assert_eq!(v.reduce_sum(), i32::MIN);
    let v = Simd::from_array([i32::MAX, 2, 1, 1]);
    assert_eq!(v.reduce_product(), -2);
    let bytes = Simd::from_array([200u8, 100, 50]);
    assert_eq!(bytes.reduce_sum(), 94);
    assert_eq!(bytes.reduce_product(), 64);

    let bits = Simd::from_array([0b1100u8, 0b1010, 0b1111]);
    assert_eq!(bits.reduce_and(), 0b1000);
    assert_eq!(bits.reduce_or(), 0b1111);
    assert_eq!(bits.reduce_xor(), 0b1001);
    assert_eq!(bits.horizontal_and(), 0b1000);
    assert_eq!(bits.horizontal_or(), 0b1111);
    assert_eq!(bits.horizontal_xor(), 0b1001);

    let signed = Simd::from_array([-3i64, 7, i64::MIN, 0]);
    assert_eq!(signed.reduce_max(), 7);
    assert_eq!(signed.reduce_min(), i64::MIN);
    let one = Simd::from_array([5u16]);
    assert_eq!(one.reduce_max(), 5);
    assert_eq!(one.reduce_and(), 5);

    let none = Simd::<u32, 0>::from_array([]);
    assert_eq!(none.reduce_sum(), 0);
    assert_eq!(none.reduce_product(), 1);
}

#[test]
fn mask_count_through_the_bitmask() {
    let values = Simd::from_array([1i32, 5, 3, 7, 2, 9, 4, 6]);
    let threshold = Simd::splat(5);
    let mask = values.lanes_gt(threshold);
    assert_eq!(mask.to_array(), [false, false, false, true, false, true, false, true]);
    assert_eq!(mask.to_bitmask().count_ones(), 3);
    let mut filtered = Vec::new();
    for (i, value) in values.to_array().iter().enumerate() {
        if mask.test(i) {
            filtered.push(*value);
        }
    }
    assert_eq!(filtered, vec![7, 9, 6]);
}

#[test]
fn division_rounds_towards_zero() {
    let a = Simd::from_array([7i32, -7, 7, -7, 0, i32::MIN]);
    let b = Simd::from_array([2i32, 2, -2, -2, 5, 2]);
    assert_eq!(a / b, Simd::from_array([3, -3, -3, 3, 0, i32::MIN / 2]));
    assert_eq!(a % b, Simd::from_array([1, -1, 1, -1, 0, 0]));
    let u = Simd::from_array([7u8, 255, 0]);
    assert_eq!(u / Simd::splat(2), Simd::from_array([3, 127, 0]));
    assert_eq!(u % Simd::splat(2), Simd::from_array([1, 1, 0]));
    assert_eq!(u / 2, Simd::from_array([3, 127, 0]));
    assert_eq!(u % 2, Simd::from_array([1, 1, 0]));
    assert!(a.is_defined_lanewise(b, PartialOp::Div));
    assert!(!a.is_defined_lanewise(Simd::splat(0), PartialOp::Div));
    assert!(!a.is_defined_lanewise(Simd::splat(-1), PartialOp::Rem));
    assert!(u.is_defined_lanewise(Simd::splat(255), PartialOp::Div));
    assert!(!u.is_defined_lanewise(Simd::from_array([1, 0, 1]), PartialOp::Div));
}

#[test]
fn shifts() {
    let a = Simd::from_array([1u8, 0x81, 0xff]);
    assert_eq!(a << Simd::splat(1), Simd::from_array([2, 2, 0xfe]));
    assert_eq!(a >> Simd::splat(1), Simd::from_array([0, 0x40, 0x7f]));
    assert_eq!(a << 7, Simd::from_array([0x80, 0x80, 0x80]));
    assert_eq!(a >> 7, Simd::from_array([0, 1, 1]));
    let s = Simd::from_array([-8i16, 8, -1]);
    assert_eq!(s >> Simd::from_array([1, 2, 15]), Simd::from_array([-4, 2, -1]));
    assert_eq!(s << Simd::from_array([1, 2, 15]), Simd::from_array([-16, 32, i16::MIN]));
    assert!(s.is_defined_lanewise(Simd::splat(15), PartialOp::Shl));
    assert!(!s.is_defined_lanewise(Simd::splat(16), PartialOp::Shl));
    assert!(!s.is_defined_lanewise(Simd::splat(-1), PartialOp::Shr));
}

#[test]
fn shift_amounts_that_overflow() {
    assert!(!invalid_shift_rhs(0u8));
    assert!(!invalid_shift_rhs(7u8));
    assert!(invalid_shift_rhs(8u8));
    assert!(invalid_shift_rhs(-1i32));
    assert!(!invalid_shift_rhs(31i32));
    assert!(invalid_shift_rhs(32i32));
    assert!(!invalid_shift_rhs(63u64));
    assert!(invalid_shift_rhs(64u64));
    assert!(invalid_shift_rhs(i64::MIN));
    assert!(invalid_shift_rhs(usize::MAX));
}

#[test]
fn operators_with_a_scalar() {
    let a = Simd::from_array([1u32, 2, 3, u32::MAX]);
    assert_eq!(a + 1, Simd::from_array([2, 3, 4, 0]));
    assert_eq!(a - 2, Simd::from_array([u32::MAX, 0, 1, u32::MAX - 2]));
    assert_eq!(a * 3, Simd::from_array([3, 6, 9, u32::MAX - 2]));
    assert_eq!(a & 2, Simd::from_array([0, 2, 2, 2]));
    assert_eq!(a | 4, Simd::from_array([5, 6, 7, u32::MAX]));
    assert_eq!(a ^ 1, Simd::from_array([0, 3, 2, u32::MAX - 1]));
}

#[test]
fn vectors_are_ordered_by_their_lanes() {
    let a = Simd::from_array([1i8, 2, 3]);
    let b = Simd::from_array([1i8, 3, 0]);
    assert!(a < b);
    assert!(b > a);
    assert!(a <= a);
    assert_eq!(a.partial_cmp(&b), Some(core::cmp::Ordering::Less));
    assert_eq!(b.partial_cmp(&a), Some(core::cmp::Ordering::Greater));
    assert_eq!(a.partial_cmp(&a), Some(core::cmp::Ordering::Equal));
    let negative = Simd::from_array([-1i8, 100, 100]);
    assert!(negative < a);
    let x = Mask::<i8, 3>::from_array([false, true, false]);
    let y = Mask::<i8, 3>::from_array([false, true, true]);
    let z = Mask::<i8, 3>::from_array([true, false, false]);
    assert!(x < y);
    assert!(y < z);
    assert_eq!(z.partial_cmp(&z), Some(core::cmp::Ordering::Equal));
}

#[test]
fn scalars_make_vectors() {
    let v: Simd<u16, 4> = 7u16.splat();
    assert_eq!(v, Simd::splat(7));
    let s: <Simd<u16, 4> as Scalarize<4>>::Scalar = 3;
    assert_eq!(Vectorize::splat::<2>(s).to_array(), [3, 3]);
}

#[test]
fn supported_lane_counts() {
    assert!(!is_supported_lane_count(0));
    assert!(is_supported_lane_count(1));
    assert!(is_supported_lane_count(3));
    assert!(is_supported_lane_count(MAX_LANES));
    assert!(!is_supported_lane_count(MAX_LANES + 1));
    assert_eq!(MAX_LANES, 64);
}
