//! The signed lane types, which are also the lane types of masks.

use super::{
    lemma_truncated_division, lemma_wrapped_once, lemma_wrapped_remainder, Int, MaskElement, SInt,
    SimdElement,
};
use vstd::prelude::*;

verus! {

impl Int for i8 {
    open spec fn value(self) -> int {
        self as int
    }

    open spec fn least() -> int {
        i8::MIN as int
    }

    open spec fn greatest() -> int {
        i8::MAX as int
    }

    open spec fn bits() -> int {
        i8::BITS as int
    }

    open spec fn bit_and(self, other: Self) -> Self {
        self & other
    }

    open spec fn bit_or(self, other: Self) -> Self {
        self | other
    }

    open spec fn bit_xor(self, other: Self) -> Self {
        self ^ other
    }

    open spec fn bit_not(self) -> Self {
        !self
    }

    open spec fn shifted_left(self, rhs: Self) -> Self {
        self << rhs
    }

    open spec fn shifted_right(self, rhs: Self) -> Self {
        self >> rhs
    }

    proof fn lemma_value(a: Self, b: Self) {
    }

    proof fn lemma_range() {
    }

    proof fn lemma_width() {
    }

    fn lane_bits() -> (r: u32) {
        i8::BITS
    }

    fn lane_zero() -> (r: Self) {
        0
    }

    fn lane_one() -> (r: Self) {
        1
    }

    fn lane_min() -> (r: Self) {
        i8::MIN
    }

    fn lane_max() -> (r: Self) {
        i8::MAX
    }

    fn lane_from_index(index: usize) -> (r: Self) {
        index as i8
    }

    fn lane_eq(self, other: Self) -> (r: bool) {
        self == other
    }

    fn lane_lt(self, other: Self) -> (r: bool) {
        self < other
    }

    fn lane_le(self, other: Self) -> (r: bool) {
        self <= other
    }

    fn lane_wrapping_add(self, other: Self) -> (r: Self) {
        proof {
            lemma_wrapped_once(self + other, i8::MIN as int, i8::MAX as int);
        }
        self.wrapping_add(other)
    }

    fn lane_wrapping_sub(self, other: Self) -> (r: Self) {
        proof {
            lemma_wrapped_once(self - other, i8::MIN as int, i8::MAX as int);
        }
        self.wrapping_sub(other)
    }

    fn lane_wrapping_mul(self, other: Self) -> (r: Self) {
        proof {
            lemma_wrapped_remainder(self as int * other as int, i8::MIN as int, i8::MAX as int);
        }
        self.wrapping_mul(other)
    }

    fn lane_saturating_add(self, other: Self) -> (r: Self) {
        match self.checked_add(other) {
            Some(sum) => sum,
            None => if other > 0 {
                i8::MAX
            } else {
                i8::MIN
            },
        }
    }

    fn lane_saturating_sub(self, other: Self) -> (r: Self) {
        match self.checked_sub(other) {
            Some(difference) => difference,
            None => if other > 0 {
                i8::MIN
            } else {
                i8::MAX
            },
        }
    }

    fn lane_div(self, other: Self) -> (r: Self) {
        proof {
            lemma_truncated_division(
                self as int,
                other as int,
                Self::least(),
                Self::greatest(),
            );
        }
        match self.checked_div(other) {
            Some(quotient) => quotient,
            None => self,
        }
    }

    fn lane_rem(self, other: Self) -> (r: Self) {
        proof {
            lemma_truncated_division(
                self as int,
                other as int,
                Self::least(),
                Self::greatest(),
            );
        }
        match self.checked_rem(other) {
            Some(remainder) => remainder,
            None => self,
        }
    }

    fn lane_shl(self, rhs: Self) -> (r: Self) {
        self << rhs
    }

    fn lane_shr(self, rhs: Self) -> (r: Self) {
        self >> rhs
    }

    fn lane_and(self, other: Self) -> (r: Self) {
        self & other
    }

    fn lane_or(self, other: Self) -> (r: Self) {
        self | other
    }

    fn lane_xor(self, other: Self) -> (r: Self) {
        self ^ other
    }

    fn lane_not(self) -> (r: Self) {
        !self
    }

}

impl SimdElement for i8 {
    type Mask = i8;
}

impl SInt for i8 {
    proof fn lemma_signed() {
    }

    fn lane_minus_one() -> (r: Self) {
        -1
    }
}

impl MaskElement for i8 {
    fn truth() -> (r: Self) {
        -1
    }

    fn falsity() -> (r: Self) {
        0
    }
}

impl Int for i16 {
    open spec fn value(self) -> int {
        self as int
    }

    open spec fn least() -> int {
        i16::MIN as int
    }

    open spec fn greatest() -> int {
        i16::MAX as int
    }

    open spec fn bits() -> int {
        i16::BITS as int
    }

    open spec fn bit_and(self, other: Self) -> Self {
        self & other
    }

    open spec fn bit_or(self, other: Self) -> Self {
        self | other
    }

    open spec fn bit_xor(self, other: Self) -> Self {
        self ^ other
    }

    open spec fn bit_not(self) -> Self {
        !self
    }

    open spec fn shifted_left(self, rhs: Self) -> Self {
        self << rhs
    }

    open spec fn shifted_right(self, rhs: Self) -> Self {
        self >> rhs
    }

    proof fn lemma_value(a: Self, b: Self) {
    }

    proof fn lemma_range() {
    }

    proof fn lemma_width() {
    }

    fn lane_bits() -> (r: u32) {
        i16::BITS
    }

    fn lane_zero() -> (r: Self) {
        0
    }

    fn lane_one() -> (r: Self) {
        1
    }

    fn lane_min() -> (r: Self) {
        i16::MIN
    }

    fn lane_max() -> (r: Self) {
        i16::MAX
    }

    fn lane_from_index(index: usize) -> (r: Self) {
        index as i16
    }

    fn lane_eq(self, other: Self) -> (r: bool) {
        self == other
    }

    fn lane_lt(self, other: Self) -> (r: bool) {
        self < other
    }

    fn lane_le(self, other: Self) -> (r: bool) {
        self <= other
    }

    fn lane_wrapping_add(self, other: Self) -> (r: Self) {
        proof {
            lemma_wrapped_once(self + other, i16::MIN as int, i16::MAX as int);
        }
        self.wrapping_add(other)
    }

    fn lane_wrapping_sub(self, other: Self) -> (r: Self) {
        proof {
            lemma_wrapped_once(self - other, i16::MIN as int, i16::MAX as int);
        }
        self.wrapping_sub(other)
    }

    fn lane_wrapping_mul(self, other: Self) -> (r: Self) {
        proof {
            lemma_wrapped_remainder(self as int * other as int, i16::MIN as int, i16::MAX as int);
        }
        self.wrapping_mul(other)
    }

    fn lane_saturating_add(self, other: Self) -> (r: Self) {
        match self.checked_add(other) {
            Some(sum) => sum,
            None => if other > 0 {
                i16::MAX
            } else {
                i16::MIN
            },
        }
    }

    fn lane_saturating_sub(self, other: Self) -> (r: Self) {
        match self.checked_sub(other) {
            Some(difference) => difference,
            None => if other > 0 {
                i16::MIN
            } else {
                i16::MAX
            },
        }
    }

    fn lane_div(self, other: Self) -> (r: Self) {
        proof {
            lemma_truncated_division(
                self as int,
                other as int,
                Self::least(),
                Self::greatest(),
            );
        }
        match self.checked_div(other) {
            Some(quotient) => quotient,
            None => self,
        }
    }

    fn lane_rem(self, other: Self) -> (r: Self) {
        proof {
            lemma_truncated_division(
                self as int,
                other as int,
                Self::least(),
                Self::greatest(),
            );
        }
        match self.checked_rem(other) {
            Some(remainder) => remainder,
            None => self,
        }
    }

    fn lane_shl(self, rhs: Self) -> (r: Self) {
        self << rhs
    }

    fn lane_shr(self, rhs: Self) -> (r: Self) {
        self >> rhs
    }

    fn lane_and(self, other: Self) -> (r: Self) {
        self & other
    }

    fn lane_or(self, other: Self) -> (r: Self) {
        self | other
    }

    fn lane_xor(self, other: Self) -> (r: Self) {
        self ^ other
    }

    fn lane_not(self) -> (r: Self) {
        !self
    }

}

impl SimdElement for i16 {
    type Mask = i16;
}

impl SInt for i16 {
    proof fn lemma_signed() {
    }

    fn lane_minus_one() -> (r: Self) {
        -1
    }
}

impl MaskElement for i16 {
    fn truth() -> (r: Self) {
        -1
    }

    fn falsity() -> (r: Self) {
        0
    }
}

impl Int for i32 {
    open spec fn value(self) -> int {
        self as int
    }

    open spec fn least() -> int {
        i32::MIN as int
    }

    open spec fn greatest() -> int {
        i32::MAX as int
    }

    open spec fn bits() -> int {
        i32::BITS as int
    }

    open spec fn bit_and(self, other: Self) -> Self {
        self & other
    }

    open spec fn bit_or(self, other: Self) -> Self {
        self | other
    }

    open spec fn bit_xor(self, other: Self) -> Self {
        self ^ other
    }

    open spec fn bit_not(self) -> Self {
        !self
    }

    open spec fn shifted_left(self, rhs: Self) -> Self {
        self << rhs
    }

    open spec fn shifted_right(self, rhs: Self) -> Self {
        self >> rhs
    }

    proof fn lemma_value(a: Self, b: Self) {
    }

    proof fn lemma_range() {
    }

    proof fn lemma_width() {
    }

    fn lane_bits() -> (r: u32) {
        i32::BITS
    }

    fn lane_zero() -> (r: Self) {
        0
    }

    fn lane_one() -> (r: Self) {
        1
    }

    fn lane_min() -> (r: Self) {
        i32::MIN
    }

    fn lane_max() -> (r: Self) {
        i32::MAX
    }

    fn lane_from_index(index: usize) -> (r: Self) {
        index as i32
    }

    fn lane_eq(self, other: Self) -> (r: bool) {
        self == other
    }

    fn lane_lt(self, other: Self) -> (r: bool) {
        self < other
    }

    fn lane_le(self, other: Self) -> (r: bool) {
        self <= other
    }

    fn lane_wrapping_add(self, other: Self) -> (r: Self) {
        proof {
            lemma_wrapped_once(self + other, i32::MIN as int, i32::MAX as int);
        }
        self.wrapping_add(other)
    }

    fn lane_wrapping_sub(self, other: Self) -> (r: Self) {
        proof {
            lemma_wrapped_once(self - other, i32::MIN as int, i32::MAX as int);
        }
        self.wrapping_sub(other)
    }

    fn lane_wrapping_mul(self, other: Self) -> (r: Self) {
        proof {
            lemma_wrapped_remainder(self as int * other as int, i32::MIN as int, i32::MAX as int);
        }
        self.wrapping_mul(other)
    }

    fn lane_saturating_add(self, other: Self) -> (r: Self) {
        match self.checked_add(other) {
            Some(sum) => sum,
            None => if other > 0 {
                i32::MAX
            } else {
                i32::MIN
            },
        }
    }

    fn lane_saturating_sub(self, other: Self) -> (r: Self) {
        match self.checked_sub(other) {
            Some(difference) => difference,
            None => if other > 0 {
                i32::MIN
            } else {
                i32::MAX
            },
        }
    }

    fn lane_div(self, other: Self) -> (r: Self) {
        proof {
            lemma_truncated_division(
                self as int,
                other as int,
                Self::least(),
                Self::greatest(),
            );
        }
        match self.checked_div(other) {
            Some(quotient) => quotient,
            None => self,
        }
    }

    fn lane_rem(self, other: Self) -> (r: Self) {
        proof {
            lemma_truncated_division(
                self as int,
                other as int,
                Self::least(),
                Self::greatest(),
            );
        }
        match self.checked_rem(other) {
            Some(remainder) => remainder,
            None => self,
        }
    }

    fn lane_shl(self, rhs: Self) -> (r: Self) {
        self << rhs
    }

    fn lane_shr(self, rhs: Self) -> (r: Self) {
        self >> rhs
    }

    fn lane_and(self, other: Self) -> (r: Self) {
        self & other
    }

    fn lane_or(self, other: Self) -> (r: Self) {
        self | other
    }

    fn lane_xor(self, other: Self) -> (r: Self) {
        self ^ other
    }

    fn lane_not(self) -> (r: Self) {
        !self
    }

}

impl SimdElement for i32 {
    type Mask = i32;
}

impl SInt for i32 {
    proof fn lemma_signed() {
    }

    fn lane_minus_one() -> (r: Self) {
        -1
    }
}

impl MaskElement for i32 {
    fn truth() -> (r: Self) {
        -1
    }

    fn falsity() -> (r: Self) {
        0
    }
}

impl Int for i64 {
    open spec fn value(self) -> int {
        self as int
    }

    open spec fn least() -> int {
        i64::MIN as int
    }

    open spec fn greatest() -> int {
        i64::MAX as int
    }

    open spec fn bits() -> int {
        i64::BITS as int
    }

    open spec fn bit_and(self, other: Self) -> Self {
        self & other
    }

    open spec fn bit_or(self, other: Self) -> Self {
        self | other
    }

    open spec fn bit_xor(self, other: Self) -> Self {
        self ^ other
    }

    open spec fn bit_not(self) -> Self {
        !self
    }

    open spec fn shifted_left(self, rhs: Self) -> Self {
        self << rhs
    }

    open spec fn shifted_right(self, rhs: Self) -> Self {
        self >> rhs
    }

    proof fn lemma_value(a: Self, b: Self) {
    }

    proof fn lemma_range() {
    }

    proof fn lemma_width() {
    }

    fn lane_bits() -> (r: u32) {
        i64::BITS
    }

    fn lane_zero() -> (r: Self) {
        0
    }

    fn lane_one() -> (r: Self) {
        1
    }

    fn lane_min() -> (r: Self) {
        i64::MIN
    }

    fn lane_max() -> (r: Self) {
        i64::MAX
    }

    fn lane_from_index(index: usize) -> (r: Self) {
        index as i64
    }

    fn lane_eq(self, other: Self) -> (r: bool) {
        self == other
    }

    fn lane_lt(self, other: Self) -> (r: bool) {
        self < other
    }

    fn lane_le(self, other: Self) -> (r: bool) {
        self <= other
    }

    fn lane_wrapping_add(self, other: Self) -> (r: Self) {
        proof {
            lemma_wrapped_once(self + other, i64::MIN as int, i64::MAX as int);
        }
        self.wrapping_add(other)
    }

    fn lane_wrapping_sub(self, other: Self) -> (r: Self) {
        proof {
            lemma_wrapped_once(self - other, i64::MIN as int, i64::MAX as int);
        }
        self.wrapping_sub(other)
    }

    fn lane_wrapping_mul(self, other: Self) -> (r: Self) {
        proof {
            lemma_wrapped_remainder(self as int * other as int, i64::MIN as int, i64::MAX as int);
        }
        self.wrapping_mul(other)
    }

    fn lane_saturating_add(self, other: Self) -> (r: Self) {
        match self.checked_add(other) {
            Some(sum) => sum,
            None => if other > 0 {
                i64::MAX
            } else {
                i64::MIN
            },
        }
    }

    fn lane_saturating_sub(self, other: Self) -> (r: Self) {
        match self.checked_sub(other) {
            Some(difference) => difference,
            None => if other > 0 {
                i64::MIN
            } else {
                i64::MAX
            },
        }
    }

    fn lane_div(self, other: Self) -> (r: Self) {
        proof {
            lemma_truncated_division(
                self as int,
                other as int,
                Self::least(),
                Self::greatest(),
            );
        }
        match self.checked_div(other) {
            Some(quotient) => quotient,
            None => self,
        }
    }

    fn lane_rem(self, other: Self) -> (r: Self) {
        proof {
            lemma_truncated_division(
                self as int,
                other as int,
                Self::least(),
                Self::greatest(),
            );
        }
        match self.checked_rem(other) {
            Some(remainder) => remainder,
            None => self,
        }
    }

    fn lane_shl(self, rhs: Self) -> (r: Self) {
        self << rhs
    }

    fn lane_shr(self, rhs: Self) -> (r: Self) {
        self >> rhs
    }

    fn lane_and(self, other: Self) -> (r: Self) {
        self & other
    }

    fn lane_or(self, other: Self) -> (r: Self) {
        self | other
    }

    fn lane_xor(self, other: Self) -> (r: Self) {
        self ^ other
    }

    fn lane_not(self) -> (r: Self) {
        !self
    }

}

impl SimdElement for i64 {
    type Mask = i64;
}

impl SInt for i64 {
    proof fn lemma_signed() {
    }

    fn lane_minus_one() -> (r: Self) {
        -1
    }
}

impl MaskElement for i64 {
    fn truth() -> (r: Self) {
        -1
    }

    fn falsity() -> (r: Self) {
        0
    }
}

impl Int for isize {
    open spec fn value(self) -> int {
        self as int
    }

    open spec fn least() -> int {
        isize::MIN as int
    }

    open spec fn greatest() -> int {
        isize::MAX as int
    }

    open spec fn bits() -> int {
        isize::BITS as int
    }

    open spec fn bit_and(self, other: Self) -> Self {
        self & other
    }

    open spec fn bit_or(self, other: Self) -> Self {
        self | other
    }

    open spec fn bit_xor(self, other: Self) -> Self {
        self ^ other
    }

    open spec fn bit_not(self) -> Self {
        !self
    }

    open spec fn shifted_left(self, rhs: Self) -> Self {
        self << rhs
    }

    open spec fn shifted_right(self, rhs: Self) -> Self {
        self >> rhs
    }

    proof fn lemma_value(a: Self, b: Self) {
    }

    proof fn lemma_range() {
    }

    proof fn lemma_width() {
    }

    fn lane_bits() -> (r: u32) {
        isize::BITS
    }

    fn lane_zero() -> (r: Self) {
        0
    }

    fn lane_one() -> (r: Self) {
        1
    }

    fn lane_min() -> (r: Self) {
        isize::MIN
    }

    fn lane_max() -> (r: Self) {
        isize::MAX
    }

    fn lane_from_index(index: usize) -> (r: Self) {
        index as isize
    }

    fn lane_eq(self, other: Self) -> (r: bool) {
        self == other
    }

    fn lane_lt(self, other: Self) -> (r: bool) {
        self < other
    }

    fn lane_le(self, other: Self) -> (r: bool) {
        self <= other
    }

    fn lane_wrapping_add(self, other: Self) -> (r: Self) {
        proof {
            lemma_wrapped_once(self + other, isize::MIN as int, isize::MAX as int);
        }
        self.wrapping_add(other)
    }

    fn lane_wrapping_sub(self, other: Self) -> (r: Self) {
        proof {
            lemma_wrapped_once(self - other, isize::MIN as int, isize::MAX as int);
        }
        self.wrapping_sub(other)
    }

    fn lane_wrapping_mul(self, other: Self) -> (r: Self) {
        proof {
            lemma_wrapped_remainder(self as int * other as int, isize::MIN as int, isize::MAX as int);
        }
        self.wrapping_mul(other)
    }

    fn lane_saturating_add(self, other: Self) -> (r: Self) {
        match self.checked_add(other) {
            Some(sum) => sum,
            None => if other > 0 {
                isize::MAX
            } else {
                isize::MIN
            },
        }
    }

    fn lane_saturating_sub(self, other: Self) -> (r: Self) {
        match self.checked_sub(other) {
            Some(difference) => difference,
            None => if other > 0 {
                isize::MIN
            } else {
                isize::MAX
            },
        }
    }

    fn lane_div(self, other: Self) -> (r: Self) {
        proof {
            lemma_truncated_division(
                self as int,
                other as int,
                Self::least(),
                Self::greatest(),
            );
        }
        match self.checked_div(other) {
            Some(quotient) => quotient,
            None => self,
        }
    }

    fn lane_rem(self, other: Self) -> (r: Self) {
        proof {
            lemma_truncated_division(
                self as int,
                other as int,
                Self::least(),
                Self::greatest(),
            );
        }
        match self.checked_rem(other) {
            Some(remainder) => remainder,
            None => self,
        }
    }

    fn lane_shl(self, rhs: Self) -> (r: Self) {
        self << rhs
    }

    fn lane_shr(self, rhs: Self) -> (r: Self) {
        self >> rhs
    }

    fn lane_and(self, other: Self) -> (r: Self) {
        self & other
    }

    fn lane_or(self, other: Self) -> (r: Self) {
        self | other
    }

    fn lane_xor(self, other: Self) -> (r: Self) {
        self ^ other
    }

    fn lane_not(self) -> (r: Self) {
        !self
    }

}

impl SimdElement for isize {
    type Mask = isize;
}

impl SInt for isize {
    proof fn lemma_signed() {
    }

    fn lane_minus_one() -> (r: Self) {
        -1
    }
}

impl MaskElement for isize {
    fn truth() -> (r: Self) {
        -1
    }

    fn falsity() -> (r: Self) {
        0
    }
}

} // verus!
