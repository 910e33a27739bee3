//! The unsigned lane types.

use super::{lemma_wrapped_once, lemma_wrapped_remainder, Int, SimdElement};
use vstd::arithmetic::div_mod::lemma_fundamental_div_mod;
use vstd::prelude::*;

verus! {

impl Int for u8 {
    open spec fn value(self) -> int {
        self as int
    }

    open spec fn least() -> int {
        0
    }

    open spec fn greatest() -> int {
        u8::MAX as int
    }

    open spec fn bits() -> int {
        u8::BITS as int
    }

    open spec fn bit_and(self, other: Self) -> Self {
        self & other
    }

    open spec fn bit_or(self, other: Self) -> Self {
        self | other
    }

    open spec fn bit_xor(self, other: Self) -> Self {
        self ^ other
    }

    open spec fn bit_not(self) -> Self {
        !self
    }

    open spec fn shifted_left(self, rhs: Self) -> Self {
        self << rhs
    }

    open spec fn shifted_right(self, rhs: Self) -> Self {
        self >> rhs
    }

    proof fn lemma_value(a: Self, b: Self) {
    }

    proof fn lemma_range() {
    }

    proof fn lemma_width() {
    }

    fn lane_bits() -> (r: u32) {
        u8::BITS
    }

    fn lane_zero() -> (r: Self) {
        0
    }

    fn lane_one() -> (r: Self) {
        1
    }

    fn lane_min() -> (r: Self) {
        u8::MIN
    }

    fn lane_max() -> (r: Self) {
        u8::MAX
    }

    fn lane_from_index(index: usize) -> (r: Self) {
        index as u8
    }

    fn lane_eq(self, other: Self) -> (r: bool) {
        self == other
    }

    fn lane_lt(self, other: Self) -> (r: bool) {
        self < other
    }

    fn lane_le(self, other: Self) -> (r: bool) {
        self <= other
    }

    fn lane_wrapping_add(self, other: Self) -> (r: Self) {
        proof {
            lemma_wrapped_once(self + other, 0, u8::MAX as int);
        }
        self.wrapping_add(other)
    }

    fn lane_wrapping_sub(self, other: Self) -> (r: Self) {
        proof {
            lemma_wrapped_once(self - other, 0, u8::MAX as int);
        }
        self.wrapping_sub(other)
    }

    fn lane_wrapping_mul(self, other: Self) -> (r: Self) {
        proof {
            lemma_wrapped_remainder(self as int * other as int, 0, u8::MAX as int);
        }
        self.wrapping_mul(other)
    }

    fn lane_saturating_add(self, other: Self) -> (r: Self) {
        self.saturating_add(other)
    }

    fn lane_saturating_sub(self, other: Self) -> (r: Self) {
        self.saturating_sub(other)
    }

    fn lane_div(self, other: Self) -> (r: Self) {
        self / other
    }

    fn lane_rem(self, other: Self) -> (r: Self) {
        proof {
            lemma_fundamental_div_mod(self as int, other as int);
        }
        self % other
    }

    fn lane_shl(self, rhs: Self) -> (r: Self) {
        self << rhs
    }

    fn lane_shr(self, rhs: Self) -> (r: Self) {
        self >> rhs
    }

    fn lane_and(self, other: Self) -> (r: Self) {
        self & other
    }

    fn lane_or(self, other: Self) -> (r: Self) {
        self | other
    }

    fn lane_xor(self, other: Self) -> (r: Self) {
        self ^ other
    }

    fn lane_not(self) -> (r: Self) {
        !self
    }

}

impl SimdElement for u8 {
    type Mask = i8;
}

impl Int for u16 {
    open spec fn value(self) -> int {
        self as int
    }

    open spec fn least() -> int {
        0
    }

    open spec fn greatest() -> int {
        u16::MAX as int
    }

    open spec fn bits() -> int {
        u16::BITS as int
    }

    open spec fn bit_and(self, other: Self) -> Self {
        self & other
    }

    open spec fn bit_or(self, other: Self) -> Self {
        self | other
    }

    open spec fn bit_xor(self, other: Self) -> Self {
        self ^ other
    }

    open spec fn bit_not(self) -> Self {
        !self
    }

    open spec fn shifted_left(self, rhs: Self) -> Self {
        self << rhs
    }

    open spec fn shifted_right(self, rhs: Self) -> Self {
        self >> rhs
    }

    proof fn lemma_value(a: Self, b: Self) {
    }

    proof fn lemma_range() {
    }

    proof fn lemma_width() {
    }

    fn lane_bits() -> (r: u32) {
        u16::BITS
    }

    fn lane_zero() -> (r: Self) {
        0
    }

    fn lane_one() -> (r: Self) {
        1
    }

    fn lane_min() -> (r: Self) {
        u16::MIN
    }

    fn lane_max() -> (r: Self) {
        u16::MAX
    }

    fn lane_from_index(index: usize) -> (r: Self) {
        index as u16
    }

    fn lane_eq(self, other: Self) -> (r: bool) {
        self == other
    }

    fn lane_lt(self, other: Self) -> (r: bool) {
        self < other
    }

    fn lane_le(self, other: Self) -> (r: bool) {
        self <= other
    }

    fn lane_wrapping_add(self, other: Self) -> (r: Self) {
        proof {
            lemma_wrapped_once(self + other, 0, u16::MAX as int);
        }
        self.wrapping_add(other)
    }

    fn lane_wrapping_sub(self, other: Self) -> (r: Self) {
        proof {
            lemma_wrapped_once(self - other, 0, u16::MAX as int);
        }
        self.wrapping_sub(other)
    }

    fn lane_wrapping_mul(self, other: Self) -> (r: Self) {
        proof {
            lemma_wrapped_remainder(self as int * other as int, 0, u16::MAX as int);
        }
        self.wrapping_mul(other)
    }

    fn lane_saturating_add(self, other: Self) -> (r: Self) {
        self.saturating_add(other)
    }

    fn lane_saturating_sub(self, other: Self) -> (r: Self) {
        self.saturating_sub(other)
    }

    fn lane_div(self, other: Self) -> (r: Self) {
        self / other
    }

    fn lane_rem(self, other: Self) -> (r: Self) {
        proof {
            lemma_fundamental_div_mod(self as int, other as int);
        }
        self % other
    }

    fn lane_shl(self, rhs: Self) -> (r: Self) {
        self << rhs
    }

    fn lane_shr(self, rhs: Self) -> (r: Self) {
        self >> rhs
    }

    fn lane_and(self, other: Self) -> (r: Self) {
        self & other
    }

    fn lane_or(self, other: Self) -> (r: Self) {
        self | other
    }

    fn lane_xor(self, other: Self) -> (r: Self) {
        self ^ other
    }

    fn lane_not(self) -> (r: Self) {
        !self
    }

}

impl SimdElement for u16 {
    type Mask = i16;
}

impl Int for u32 {
    open spec fn value(self) -> int {
        self as int
    }

    open spec fn least() -> int {
        0
    }

    open spec fn greatest() -> int {
        u32::MAX as int
    }

    open spec fn bits() -> int {
        u32::BITS as int
    }

    open spec fn bit_and(self, other: Self) -> Self {
        self & other
    }

    open spec fn bit_or(self, other: Self) -> Self {
        self | other
    }

    open spec fn bit_xor(self, other: Self) -> Self {
        self ^ other
    }

    open spec fn bit_not(self) -> Self {
        !self
    }

    open spec fn shifted_left(self, rhs: Self) -> Self {
        self << rhs
    }

    open spec fn shifted_right(self, rhs: Self) -> Self {
        self >> rhs
    }

    proof fn lemma_value(a: Self, b: Self) {
    }

    proof fn lemma_range() {
    }

    proof fn lemma_width() {
    }

    fn lane_bits() -> (r: u32) {
        u32::BITS
    }

    fn lane_zero() -> (r: Self) {
        0
    }

    fn lane_one() -> (r: Self) {
        1
    }

    fn lane_min() -> (r: Self) {
        u32::MIN
    }

    fn lane_max() -> (r: Self) {
        u32::MAX
    }

    fn lane_from_index(index: usize) -> (r: Self) {
        index as u32
    }

    fn lane_eq(self, other: Self) -> (r: bool) {
        self == other
    }

    fn lane_lt(self, other: Self) -> (r: bool) {
        self < other
    }

    fn lane_le(self, other: Self) -> (r: bool) {
        self <= other
    }

    fn lane_wrapping_add(self, other: Self) -> (r: Self) {
        proof {
            lemma_wrapped_once(self + other, 0, u32::MAX as int);
        }
        self.wrapping_add(other)
    }

    fn lane_wrapping_sub(self, other: Self) -> (r: Self) {
        proof {
            lemma_wrapped_once(self - other, 0, u32::MAX as int);
        }
        self.wrapping_sub(other)
    }

    fn lane_wrapping_mul(self, other: Self) -> (r: Self) {
        proof {
            lemma_wrapped_remainder(self as int * other as int, 0, u32::MAX as int);
        }
        self.wrapping_mul(other)
    }

    fn lane_saturating_add(self, other: Self) -> (r: Self) {
        self.saturating_add(other)
    }

    fn lane_saturating_sub(self, other: Self) -> (r: Self) {
        self.saturating_sub(other)
    }

    fn lane_div(self, other: Self) -> (r: Self) {
        self / other
    }

    fn lane_rem(self, other: Self) -> (r: Self) {
        proof {
            lemma_fundamental_div_mod(self as int, other as int);
        }
        self % other
    }

    fn lane_shl(self, rhs: Self) -> (r: Self) {
        self << rhs
    }

    fn lane_shr(self, rhs: Self) -> (r: Self) {
        self >> rhs
    }

    fn lane_and(self, other: Self) -> (r: Self) {
        self & other
    }

    fn lane_or(self, other: Self) -> (r: Self) {
        self | other
    }

    fn lane_xor(self, other: Self) -> (r: Self) {
        self ^ other
    }

    fn lane_not(self) -> (r: Self) {
        !self
    }

}

impl SimdElement for u32 {
    type Mask = i32;
}

impl Int for u64 {
    open spec fn value(self) -> int {
        self as int
    }

    open spec fn least() -> int {
        0
    }

    open spec fn greatest() -> int {
        u64::MAX as int
    }

    open spec fn bits() -> int {
        u64::BITS as int
    }

    open spec fn bit_and(self, other: Self) -> Self {
        self & other
    }

    open spec fn bit_or(self, other: Self) -> Self {
        self | other
    }

    open spec fn bit_xor(self, other: Self) -> Self {
        self ^ other
    }

    open spec fn bit_not(self) -> Self {
        !self
    }

    open spec fn shifted_left(self, rhs: Self) -> Self {
        self << rhs
    }

    open spec fn shifted_right(self, rhs: Self) -> Self {
        self >> rhs
    }

    proof fn lemma_value(a: Self, b: Self) {
    }

    proof fn lemma_range() {
    }

    proof fn lemma_width() {
    }

    fn lane_bits() -> (r: u32) {
        u64::BITS
    }

    fn lane_zero() -> (r: Self) {
        0
    }

    fn lane_one() -> (r: Self) {
        1
    }

    fn lane_min() -> (r: Self) {
        u64::MIN
    }

    fn lane_max() -> (r: Self) {
        u64::MAX
    }

    fn lane_from_index(index: usize) -> (r: Self) {
        index as u64
    }

    fn lane_eq(self, other: Self) -> (r: bool) {
        self == other
    }

    fn lane_lt(self, other: Self) -> (r: bool) {
        self < other
    }

    fn lane_le(self, other: Self) -> (r: bool) {
        self <= other
    }

    fn lane_wrapping_add(self, other: Self) -> (r: Self) {
        proof {
            lemma_wrapped_once(self + other, 0, u64::MAX as int);
        }
        self.wrapping_add(other)
    }

    fn lane_wrapping_sub(self, other: Self) -> (r: Self) {
        proof {
            lemma_wrapped_once(self - other, 0, u64::MAX as int);
        }
        self.wrapping_sub(other)
    }

    fn lane_wrapping_mul(self, other: Self) -> (r: Self) {
        proof {
            lemma_wrapped_remainder(self as int * other as int, 0, u64::MAX as int);
        }
        self.wrapping_mul(other)
    }

    fn lane_saturating_add(self, other: Self) -> (r: Self) {
        self.saturating_add(other)
    }

    fn lane_saturating_sub(self, other: Self) -> (r: Self) {
        self.saturating_sub(other)
    }

    fn lane_div(self, other: Self) -> (r: Self) {
        self / other
    }

    fn lane_rem(self, other: Self) -> (r: Self) {
        proof {
            lemma_fundamental_div_mod(self as int, other as int);
        }
        self % other
    }

    fn lane_shl(self, rhs: Self) -> (r: Self) {
        self << rhs
    }

    fn lane_shr(self, rhs: Self) -> (r: Self) {
        self >> rhs
    }

    fn lane_and(self, other: Self) -> (r: Self) {
        self & other
    }

    fn lane_or(self, other: Self) -> (r: Self) {
        self | other
    }

    fn lane_xor(self, other: Self) -> (r: Self) {
        self ^ other
    }

    fn lane_not(self) -> (r: Self) {
        !self
    }

}

impl SimdElement for u64 {
    type Mask = i64;
}

impl Int for usize {
    open spec fn value(self) -> int {
        self as int
    }

    open spec fn least() -> int {
        0
    }

    open spec fn greatest() -> int {
        usize::MAX as int
    }

    open spec fn bits() -> int {
        usize::BITS as int
    }

    open spec fn bit_and(self, other: Self) -> Self {
        self & other
    }

    open spec fn bit_or(self, other: Self) -> Self {
        self | other
    }

    open spec fn bit_xor(self, other: Self) -> Self {
        self ^ other
    }

    open spec fn bit_not(self) -> Self {
        !self
    }

    open spec fn shifted_left(self, rhs: Self) -> Self {
        self << rhs
    }

    open spec fn shifted_right(self, rhs: Self) -> Self {
        self >> rhs
    }

    proof fn lemma_value(a: Self, b: Self) {
    }

    proof fn lemma_range() {
    }

    proof fn lemma_width() {
    }

    fn lane_bits() -> (r: u32) {
        usize::BITS
    }

    fn lane_zero() -> (r: Self) {
        0
    }

    fn lane_one() -> (r: Self) {
        1
    }

    fn lane_min() -> (r: Self) {
        usize::MIN
    }

    fn lane_max() -> (r: Self) {
        usize::MAX
    }

    fn lane_from_index(index: usize) -> (r: Self) {
        index as usize
    }

    fn lane_eq(self, other: Self) -> (r: bool) {
        self == other
    }

    fn lane_lt(self, other: Self) -> (r: bool) {
        self < other
    }

    fn lane_le(self, other: Self) -> (r: bool) {
        self <= other
    }

    fn lane_wrapping_add(self, other: Self) -> (r: Self) {
        proof {
            lemma_wrapped_once(self + other, 0, usize::MAX as int);
        }
        self.wrapping_add(other)
    }

    fn lane_wrapping_sub(self, other: Self) -> (r: Self) {
        proof {
            lemma_wrapped_once(self - other, 0, usize::MAX as int);
        }
        self.wrapping_sub(other)
    }

    fn lane_wrapping_mul(self, other: Self) -> (r: Self) {
        proof {
            lemma_wrapped_remainder(self as int * other as int, 0, usize::MAX as int);
        }
        self.wrapping_mul(other)
    }

    fn lane_saturating_add(self, other: Self) -> (r: Self) {
        self.saturating_add(other)
    }

    fn lane_saturating_sub(self, other: Self) -> (r: Self) {
        self.saturating_sub(other)
    }

    fn lane_div(self, other: Self) -> (r: Self) {
        self / other
    }

    fn lane_rem(self, other: Self) -> (r: Self) {
        proof {
            lemma_fundamental_div_mod(self as int, other as int);
        }
        self % other
    }

    fn lane_shl(self, rhs: Self) -> (r: Self) {
        self << rhs
    }

    fn lane_shr(self, rhs: Self) -> (r: Self) {
        self >> rhs
    }

    fn lane_and(self, other: Self) -> (r: Self) {
        self & other
    }

    fn lane_or(self, other: Self) -> (r: Self) {
        self | other
    }

    fn lane_xor(self, other: Self) -> (r: Self) {
        self ^ other
    }

    fn lane_not(self) -> (r: Self) {
        !self
    }

}

impl SimdElement for usize {
    type Mask = isize;
}

} // verus!
