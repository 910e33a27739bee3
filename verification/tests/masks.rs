use core_simd::masks::bitwise::BoolOp;
use core_simd::masks::to_bitmask::{
    fix_endianness, most_significant_byte_first, target_is_big_endian, test_bit,
};
use core_simd::{
    bitmask_len, Mask, Relation, Select, Simd, SimdOrd, SimdPartialEq, SimdPartialOrd, ToBitMask,
    ToBitMaskArray,
};

type Mask32x8 = Mask<i32, 8>;

#[test]
fn array_round_trip() {
    let a = [true, false, false, true, true, false, true, false];
    assert_eq!(Mask32x8::from_array(a).to_array(), a);
    assert_eq!(Mask::<u8, 8>::from_array(a).to_array(), a);
    assert_eq!(Mask::<i16, 8>::from_array(a).to_array(), a);
    assert_eq!(Mask::<u64, 8>::from_array(a).to_array(), a);
    assert_eq!(Mask::<isize, 8>::from_array(a).to_array(), a);
    let m = Mask32x8::from_array(a);
    assert_eq!(Mask32x8::from_array(m.to_array()), m);
    assert_eq!(Mask32x8::from(a), m);
    let back: [bool; 8] = m.into();
    assert_eq!(back, a);
}

#[test]
fn splat_sets_every_lane() {
    assert_eq!(Mask::<i8, 3>::splat(true).to_array(), [true; 3]);
    assert_eq!(Mask::<i8, 3>::splat(false).to_array(), [false; 3]);
    assert_eq!(Mask::<i8, 3>::default(), Mask::splat(false));
}

#[test]
fn lanes_are_minus_one_and_zero() {
    let m = Mask::<u16, 4>::from_array([true, false, true, false]);
    assert_eq!(m.to_simd().to_array(), [-1i16, 0, -1, 0]);
    let v = Simd::from_array([0i16, -1, -1, 0]);
    assert!(Mask::<u16, 4>::valid(v));
    assert_eq!(Mask::<u16, 4>::from_simd(v).to_array(), [false, true, true, false]);
    assert_eq!(Mask::<u16, 4>::from_simd_unchecked(v).to_array(), [false, true, true, false]);
    assert!(!Mask::<u16, 4>::valid(Simd::from_array([0i16, 1, -1, 0])));
    assert!(!Mask::<u16, 4>::valid(Simd::from_array([0i16, 0, -2, 0])));
}

#[test]
fn cast_keeps_the_lanes() {
    let m = Mask::<i8, 4>::from_array([true, true, false, true]);
    let wide: Mask<u64, 4> = m.cast();
    assert_eq!(wide.to_array(), [true, true, false, true]);
    assert_eq!(wide.to_simd().to_array(), [-1i64, -1, 0, -1]);
    assert_eq!(wide.cast::<i8>(), m);
}

#[test]
fn test_and_set() {
    let mut m = Mask32x8::splat(false);
    m.set(3, true);
    assert!(m.test(3));
    assert!(!m.test(2));
    m.set_unchecked(7, true);
    assert!(m.test_unchecked(7));
    m.set(3, false);
    assert_eq!(m.to_array(), [false, false, false, false, false, false, false, true]);
}

#[test]
fn any_and_all() {
    assert!(!Mask32x8::splat(false).any());
    assert!(!Mask32x8::splat(false).all());
    assert!(Mask32x8::splat(true).any());
    assert!(Mask32x8::splat(true).all());
    let mut m = Mask32x8::splat(true);
    m.set(5, false);
    assert!(m.any());
    assert!(!m.all());
}

#[test]
fn a_mask_without_lanes_has_every_lane_set() {
    assert!(Mask::<i32, 0>::splat(false).all());
    assert!(!Mask::<i32, 0>::splat(true).any());
    assert_eq!(Mask::<i32, 0>::splat(true).first_set(), None);
    assert_eq!(Mask::<i32, 0>::splat(true).to_bitmask(), 0);
}

#[test]
fn bitmask_bit_order() {
    let mut first = [false; 8];
    first[0] = true;
    assert_eq!(Mask32x8::from_array(first).to_bitmask(), 1);
    let m = Mask32x8::from_array([true, false, false, true, false, false, false, true]);
    assert_eq!(m.to_bitmask(), 0b1000_1001);
    assert_eq!(Mask::<i8, 3>::from_array([false, true, true]).to_bitmask(), 0b110);
    assert_eq!(Mask::<i8, 1>::splat(true).to_bitmask(), 1);
    assert_eq!(Mask::<i8, 12>::splat(true).to_bitmask(), 0xfff);
    assert_eq!(Mask::<i64, 20>::splat(true).to_bitmask(), 0xf_ffff);
    assert_eq!(Mask::<i8, 33>::splat(true).to_bitmask(), 0x1_ffff_ffff);
    assert_eq!(Mask::<i8, 64>::splat(true).to_bitmask(), u64::MAX);
    let mut last = Mask::<i16, 64>::splat(false);
    last.set(63, true);
    assert_eq!(last.to_bitmask(), 1 << 63);
    let mut m16 = Mask::<i16, 16>::splat(false);
    m16.set(9, true);
    assert_eq!(m16.to_bitmask(), 1 << 9);
}

#[test]
fn bitmask_round_trip() {
    let lanes = [true, false, true, true, false, false, true, false, true, true, false];
    let m = Mask::<i16, 11>::from_array(lanes);
    assert_eq!(Mask::<i16, 11>::from_bitmask(m.to_bitmask()), m);
    assert_eq!(Mask32x8::from_bitmask(0b0101_0011).to_bitmask(), 0b0101_0011);
    // Bits that have no lane are ignored.
    assert_eq!(Mask32x8::from_bitmask(0xffff_ff05).to_bitmask(), 0x05);
    assert_eq!(Mask32x8::from_bitmask(0b10).to_array()[1], true);
    assert_eq!(Mask32x8::from_bitmask(0b10).to_array()[0], false);
    for bits in [0u64, 1, 0x8000_0000_0000_0000, 0xdead_beef_0123_4567, u64::MAX] {
        assert_eq!(Mask::<i8, 64>::from_bitmask(bits).to_bitmask(), bits);
    }
}

#[test]
fn from_bitmask_beyond_64_lanes() {
    let m = Mask::<i8, 70>::from_bitmask(u64::MAX);
    for i in 0..70 {
        assert_eq!(m.test(i), i < 64);
    }
    assert_eq!(m.first_set(), Some(0));
    let none = Mask::<i8, 70>::from_bitmask(0);
    assert_eq!(none.first_set(), None);
    let mut late = none;
    late.set(68, true);
    assert_eq!(late.first_set(), Some(68));
    assert_eq!(late.first_set_by_index(), Some(68));
}

#[test]
fn first_set() {
    assert_eq!(Mask32x8::splat(false).first_set(), None);
    assert_eq!(Mask32x8::splat(true).first_set(), Some(0));

    let mask = Mask32x8::from_array([false, true, false, false, true, false, false, true]);
    assert_eq!(mask.first_set(), Some(1));
    let mask = Mask32x8::from_array([false, false, false, false, false, false, false, true]);
    assert_eq!(mask.first_set(), Some(7));
}

#[test]
fn both_ways_to_the_first_set_lane_agree() {
    for bits in 0u64..256 {
        let m = Mask::<i8, 8>::from_bitmask(bits);
        assert_eq!(m.first_set_by_bitmask(), m.first_set_by_index());
        assert_eq!(m.first_set(), m.first_set_by_index());
        let expected = if bits == 0 { None } else { Some(bits.trailing_zeros() as usize) };
        assert_eq!(m.first_set(), expected);
    }
    for shift in 0..64 {
        let m = Mask::<i64, 64>::from_bitmask(1u64 << shift);
        assert_eq!(m.first_set_by_bitmask(), Some(shift));
        assert_eq!(m.first_set_by_index(), Some(shift));
    }
}

#[test]
fn fixing_the_bit_order() {
    assert_eq!(fix_endianness(0b0000_0001, 8, true), 0b1000_0000);
    assert_eq!(fix_endianness(0b0000_0110, 8, true), 0b0110_0000);
    assert_eq!(fix_endianness(0b0000_0110, 8, false), 0b0000_0110);
    assert_eq!(fix_endianness(1, 64, true), 1 << 63);
    assert_eq!(fix_endianness(0x0001, 16, true), 0x8000);
    assert_eq!(fix_endianness(fix_endianness(0xa5c3, 16, true), 16, true), 0xa5c3);
    // Bits above the width have no place in the other order.
    assert_eq!(fix_endianness(0x1_00ff, 16, true), 0xff00);
    assert!(!target_is_big_endian() || cfg_big());
    assert!(test_bit(0b100, 2));
    assert!(!test_bit(0b100, 1));
    assert!(!test_bit(u64::MAX, 64));
}

fn cfg_big() -> bool {
    u16::from_ne_bytes([0, 1]) == 1
}

#[test]
fn byte_order_of_the_target() {
    assert_eq!(target_is_big_endian(), cfg_big());
}

#[test]
fn byte_order_from_the_bytes_of_one() {
    assert!(most_significant_byte_first(1u16.to_be_bytes()));
    assert!(!most_significant_byte_first(1u16.to_le_bytes()));
    assert!(most_significant_byte_first([0, 1]));
    assert!(!most_significant_byte_first([1, 0]));
    assert_eq!(most_significant_byte_first(1u16.to_ne_bytes()), target_is_big_endian());
}

#[test]
fn bitmask_len_rounds_up() {
    assert_eq!(bitmask_len(0), 0);
    assert_eq!(bitmask_len(1), 1);
    assert_eq!(bitmask_len(8), 1);
    assert_eq!(bitmask_len(9), 2);
    assert_eq!(bitmask_len(64), 8);
    assert_eq!(bitmask_len(usize::MAX), usize::MAX / 8 + 1);
}

#[test]
fn logical_operators() {
    let a = Mask::<i32, 4>::from_array([true, true, false, false]);
    let b = Mask::<i32, 4>::from_array([true, false, true, false]);
    assert_eq!((a & b).to_array(), [true, false, false, false]);
    assert_eq!((a | b).to_array(), [true, true, true, false]);
    assert_eq!((a ^ b).to_array(), [false, true, true, false]);
    assert_eq!((!a).to_array(), [false, false, true, true]);
    assert_eq!((a & true), a);
    assert_eq!((a & false), Mask::splat(false));
    assert_eq!((a | true), Mask::splat(true));
    assert_eq!((a | false), a);
    assert_eq!((a ^ true), !a);
    assert_eq!((true & b), b);
    assert_eq!((false | b), b);
    assert_eq!((true ^ b), !b);
    assert_eq!(a.combine(b, BoolOp::Xor), a ^ b);
    let mut c = a;
    c &= b;
    assert_eq!(c, a & b);
    c |= a;
    assert_eq!(c, a);
    c ^= b;
    assert_eq!(c, a ^ b);
    c &= false;
    assert_eq!(c, Mask::splat(false));
    c |= true;
    assert_eq!(c, Mask::splat(true));
    c ^= true;
    assert_eq!(c, Mask::splat(false));
}

#[test]
fn de_morgan() {
    for x in 0u64..16 {
        for y in 0u64..16 {
            let a = Mask::<i8, 4>::from_bitmask(x);
            let b = Mask::<i8, 4>::from_bitmask(y);
            assert_eq!(!(a & b), (!a) | (!b));
            assert_eq!(!(a | b), (!a) & (!b));
            assert_eq!(!!a, a);
        }
    }
}

#[test]
fn select_by_mask() {
    let a = Simd::from_array([0, 1, 2, 3]);
    let b = Simd::from_array([4, 5, 6, 7]);
    let mask = Mask::<i32, 4>::from_array([true, false, false, true]);
    let c = mask.select(a, b);
    assert_eq!(c.to_array(), [0, 5, 6, 3]);
    // A mask of any lane width selects.
    let narrow = Mask::<i8, 4>::from_array([true, false, false, true]);
    assert_eq!(narrow.select(a, b).to_array(), [0, 5, 6, 3]);
}

#[test]
fn select_masks_by_mask() {
    let a = Mask::<i32, 4>::from_array([true, true, false, false]);
    let b = Mask::<i32, 4>::from_array([false, false, true, true]);
    let mask = Mask::<i32, 4>::from_array([true, false, false, true]);
    let c = mask.select(a, b);
    assert_eq!(c.to_array(), [true, false, true, false]);
}

#[test]
fn select_by_bitmask() {
    let a = Mask::<i32, 4>::from_array([true, true, false, false]);
    let b = Mask::<i32, 4>::from_array([false, false, true, true]);
    let mask: u64 = 0b1001;
    let c = mask.select(a, b);
    assert_eq!(c.to_array(), [true, false, true, false]);

    let x = Simd::from_array([10u8, 11, 12, 13, 14, 15, 16, 17, 18, 19]);
    let y = Simd::splat(0u8);
    let bits: u64 = 0b10_0000_0101;
    assert_eq!(bits.select(x, y).to_array(), [10, 0, 12, 0, 0, 0, 0, 0, 0, 19]);
    assert_eq!(
        bits.select(x, y),
        Mask::<u8, 10>::from_bitmask(bits).select(x, y)
    );
    let wide = Simd::<u16, 64>::splat(7);
    let zero = Simd::<u16, 64>::splat(0);
    let chosen = (1u64 << 63 | 1).select(wide, zero).to_array();
    assert_eq!(chosen[0], 7);
    assert_eq!(chosen[63], 7);
    assert_eq!(chosen[1], 0);
    assert_eq!(chosen[62], 0);
    let empty = Simd::<u8, 0>::from_array([]);
    assert_eq!(5u64.select(empty, empty).to_array(), []);
}

#[test]
fn select_identities() {
    let a = Simd::from_array([1i64, 2, 3, 4, 5]);
    let b = Simd::from_array([-1i64, -2, -3, -4, -5]);
    assert_eq!(Mask::<i64, 5>::splat(true).select(a, b), a);
    assert_eq!(Mask::<i64, 5>::splat(false).select(a, b), b);
    for bits in 0u64..32 {
        assert_eq!(Mask::<i64, 5>::from_bitmask(bits).select(a, a), a);
        assert_eq!(bits.select(a, a), a);
    }
    assert_eq!(u64::MAX.select(a, b), a);
    assert_eq!(0u64.select(a, b), b);
}

#[test]
fn masks_compare_as_their_integers() {
    let a = Mask::<i32, 4>::from_array([true, true, false, false]);
    let b = Mask::<i32, 4>::from_array([true, false, true, false]);
    assert_eq!(a.simd_eq(b).to_array(), [true, false, false, true]);
    assert_eq!(a.simd_ne(b).to_array(), [false, true, true, false]);
    // A lane that is set holds -1, which is less than 0.
    assert_eq!(a.simd_lt(b).to_array(), [false, true, false, false]);
    assert_eq!(a.simd_gt(b).to_array(), [false, false, true, false]);
    assert_eq!(a.simd_le(b).to_array(), [true, true, false, true]);
    assert_eq!(a.simd_ge(b).to_array(), [true, false, true, true]);
    assert_eq!(a.compare(b, Relation::Less), a.simd_lt(b));
    assert_eq!(a.simd_max(b).to_array(), [true, true, true, false]);
    assert_eq!(a.simd_min(b).to_array(), [true, false, false, false]);
    let low = Mask::<i32, 4>::splat(true);
    let high = Mask::<i32, 4>::from_array([true, true, true, true]);
    assert_eq!(a.simd_clamp(low, high).to_array(), [true, true, true, true]);
}

#[test]
fn bitmasks_in_integers_of_the_width_of_the_mask() {
    let m = Mask::<i16, 8>::from_array([true, false, true, false, false, false, false, true]);
    assert_eq!(m.to_bitmask_integer(), 0b1000_0101u8);
    assert_eq!(Mask::<i16, 8>::from_bitmask_integer(0b1000_0101u8), m);
    let m = Mask::<u8, 16>::from_bitmask(0x8001);
    assert_eq!(m.to_bitmask_integer(), 0x8001u16);
    assert_eq!(Mask::<u8, 16>::from_bitmask_integer(0x8001u16), m);
    let m = Mask::<u8, 32>::from_bitmask(0xdead_beef);
    assert_eq!(m.to_bitmask_integer(), 0xdead_beefu32);
    assert_eq!(Mask::<u8, 32>::from_bitmask_integer(0xdead_beefu32), m);
    let m = Mask::<u8, 64>::from_bitmask(0xdead_beef_0bad_cafe);
    assert_eq!(m.to_bitmask_integer(), 0xdead_beef_0bad_cafeu64);
    assert_eq!(Mask::<u8, 64>::from_bitmask_integer(0xdead_beef_0bad_cafeu64), m);
}

#[test]
fn bitmasks_in_bytes() {
    let m = Mask::<i32, 4>::from_array([true, false, true, true]);
    assert_eq!(m.to_bitmask_bytes(), [0b1101]);
    assert_eq!(Mask::<i32, 4>::from_bitmask_bytes([0b1101]), m);
    // Bits that have no lane are ignored.
    assert_eq!(Mask::<i32, 4>::from_bitmask_bytes([0xfd]), m);
    let m = Mask::<i8, 16>::from_bitmask(0x8003);
    assert_eq!(m.to_bitmask_bytes(), [0x03, 0x80]);
    assert_eq!(Mask::<i8, 16>::from_bitmask_bytes([0x03, 0x80]), m);
    let m = Mask::<i8, 64>::from_bitmask(0x0102_0304_0506_0708);
    assert_eq!(m.to_bitmask_bytes(), [8, 7, 6, 5, 4, 3, 2, 1]);
    assert_eq!(Mask::<i8, 1>::splat(true).to_bitmask_bytes(), [1]);
    assert_eq!(Mask::<i8, 2>::splat(true).to_bitmask_bytes(), [3]);
    assert_eq!(Mask::<i8, 8>::splat(true).to_bitmask_bytes(), [0xff]);
    assert_eq!(Mask::<i8, 32>::splat(true).to_bitmask_bytes(), [0xff; 4]);

    // Any number of lanes has a bitmask in bytes.
    let mut wide = Mask::<i8, 70>::splat(false);
    wide.set(0, true);
    wide.set(9, true);
    wide.set(69, true);
    let bytes = wide.to_bitmask_array::<9>();
    assert_eq!(bytes, [1, 2, 0, 0, 0, 0, 0, 0, 0x20]);
    assert_eq!(Mask::<i8, 70>::from_bitmask_array::<9>(bytes), wide);
    let eleven = Mask::<i8, 11>::splat(true);
    assert_eq!(eleven.to_bitmask_array::<2>(), [0xff, 0x07]);
    assert_eq!(Mask::<i8, 0>::splat(true).to_bitmask_array::<0>(), []);
}
