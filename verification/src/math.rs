//! Lane-wise arithmetic that does not wrap, and the sign of lanes.

use crate::element::{clamped, lemma_wrapped_once, wrapped, Int, SInt, SimdElement};
use crate::masks::{lemma_mask_len, Mask};
use crate::ops::{lanewise, LaneOp};
use crate::reduction::{and_of, is_greatest, is_least, or_of, product_of, sum_of, xor_of};
use crate::select::Select;
use crate::vector::{lemma_simd_len, Simd};
use vstd::prelude::*;

verus! {

broadcast use {lemma_simd_len, lemma_mask_len};

/// The absolute value of `v`.
pub open spec fn abs_value(v: int) -> int {
    if v < 0 {
        -v
    } else {
        v
    }
}

/// The sign of `v`: `1`, `0` or `-1`.
pub open spec fn sign_of(v: int) -> int {
    if v > 0 {
        1
    } else if v < 0 {
        -1
    } else {
        0
    }
}

/// Whether each lane of `r` holds what `f` makes of the lane of `a`.
pub open spec fn lanes_hold<T: Int>(a: Seq<T>, r: Seq<T>, f: spec_fn(int) -> int) -> bool {
    &&& r.len() == a.len()
    &&& forall|i: int| 0 <= i < a.len() ==> (#[trigger] r[i]).value() == f(a[i].value())
}

impl<T: Int, const LANES: usize> Simd<T, LANES> {
    /// The lane-wise sum, clamped to the range of the lane type.
    pub fn saturating_add(self, other: Self) -> (r: Self)
        ensures
            lanewise(LaneOp::SaturatingAdd, self@, other@, r@),
    {
        self.combine(other, LaneOp::SaturatingAdd)
    }

    /// The lane-wise difference, clamped to the range of the lane type.
    pub fn saturating_sub(self, other: Self) -> (r: Self)
        ensures
            lanewise(LaneOp::SaturatingSub, self@, other@, r@),
    {
        self.combine(other, LaneOp::SaturatingSub)
    }
}

/// A vector whose lanes have a sign.
pub trait SimdSignum: Sized {
    /// The vector of the signs of the lanes.
    fn signum(self) -> Self;
}

/// A vector whose lanes have an absolute value.
pub trait SimdAbs: Sized {
    /// The vector of the absolute values of the lanes.
    fn abs(self) -> Self;
}

impl<T: SInt + SimdElement, const LANES: usize> Simd<T, LANES> {
    /// The mask of the lanes that hold more than zero.
    pub fn is_positive(self) -> (m: Mask<T, LANES>)
        ensures
            m@ == Seq::new(LANES as nat, |i: int| self@[i].value() > 0),
    {
        let m = self.lanes_gt(Self::splat(T::lane_zero()));
        assert(m@ =~= Seq::new(LANES as nat, |i: int| self@[i].value() > 0));
        m
    }

    /// The mask of the lanes that hold less than zero.
    pub fn is_negative(self) -> (m: Mask<T, LANES>)
        ensures
            m@ == Seq::new(LANES as nat, |i: int| self@[i].value() < 0),
    {
        let m = self.lanes_lt(Self::splat(T::lane_zero()));
        assert(m@ =~= Seq::new(LANES as nat, |i: int| self@[i].value() < 0));
        m
    }

    /// The vector of the signs of the lanes: `1` for a lane that holds more
    /// than zero, `-1` for one that holds less, and `0` for one that holds
    /// zero.
    pub fn signum(self) -> (r: Self)
        ensures
            lanes_hold(self@, r@, |v: int| sign_of(v)),
    {
        <Self as SimdSignum>::signum(self)
    }

    /// The vector of the absolute values of the lanes, wrapped into the range
    /// of the lane type: the least value is its own absolute value.
    pub fn abs(self) -> (r: Self)
        ensures
            lanes_hold(self@, r@, |v: int| wrapped(abs_value(v), T::least(), T::greatest())),
    {
        <Self as SimdAbs>::abs(self)
    }

    /// The vector of the absolute values of the lanes, clamped to the range
    /// of the lane type: the absolute value of the least value is the
    /// greatest value.
    pub fn saturating_abs(self) -> (r: Self)
        ensures
            lanes_hold(self@, r@, |v: int| clamped(abs_value(v), T::least(), T::greatest())),
    {
        let negated = self.saturating_neg();
        let r = self.is_negative().select(negated, self);
        proof {
            assert forall|i: int| 0 <= i < LANES implies (#[trigger] r@[i]).value() == clamped(
                abs_value(self@[i].value()),
                T::least(),
                T::greatest(),
            ) by {
                T::lemma_value(self@[i], self@[i]);
                T::lemma_signed();
            }
        }
        r
    }

    /// The vector of the lanes with the opposite sign, clamped to the range
    /// of the lane type: the negation of the least value is the greatest
    /// value.
    pub fn saturating_neg(self) -> (r: Self)
        ensures
            lanes_hold(self@, r@, |v: int| clamped(-v, T::least(), T::greatest())),
    {
        let zero = Self::splat(T::lane_zero());
        let r = zero.saturating_sub(self);
        proof {
            assert forall|i: int| 0 <= i < LANES implies (#[trigger] r@[i]).value() == clamped(
                -self@[i].value(),
                T::least(),
                T::greatest(),
            ) by {
                assert(LaneOp::SaturatingSub.gives(zero@[i], self@[i], r@[i]));
            }
        }
        r
    }
}

impl<T: SInt + SimdElement, const LANES: usize> SimdSignum for Simd<T, LANES> {
    fn signum(self) -> (r: Self)
        ensures
            lanes_hold(self@, r@, |v: int| sign_of(v)),
    {
        let one = Self::splat(T::lane_one());
        let minus_one = Self::splat(T::lane_minus_one());
        let zero = Self::splat(T::lane_zero());
        let r = self.is_positive().select(one, self.is_negative().select(minus_one, zero));
        assert(lanes_hold(self@, r@, |v: int| sign_of(v)));
        r
    }
}

impl<T: SInt + SimdElement, const LANES: usize> SimdAbs for Simd<T, LANES> {
    fn abs(self) -> (r: Self)
        ensures
            lanes_hold(self@, r@, |v: int| wrapped(abs_value(v), T::least(), T::greatest())),
    {
        let zero = Self::splat(T::lane_zero());
        let negated = zero.combine(self, LaneOp::WrappingSub);
        let r = self.is_negative().select(negated, self);
        proof {
            assert forall|i: int| 0 <= i < LANES implies (#[trigger] r@[i]).value() == wrapped(
                abs_value(self@[i].value()),
                T::least(),
                T::greatest(),
            ) by {
                T::lemma_value(self@[i], self@[i]);
                T::lemma_signed();
                assert(LaneOp::WrappingSub.gives(zero@[i], self@[i], negated@[i]));
                lemma_wrapped_once(abs_value(self@[i].value()), T::least(), T::greatest());
            }
        }
        r
    }
}

/// Operations on vectors of signed integers.
pub trait SimdInt<T>: Sized {
    /// The mask type of the vector.
    type Mask;

    /// The number of lanes of the vector.
    spec fn lane_count() -> nat;

    /// The lane-wise sum, clamped to the range of the lane type.
    fn saturating_add(self, second: Self) -> Self;

    /// The lane-wise difference, clamped to the range of the lane type.
    fn saturating_sub(self, second: Self) -> Self;

    /// The lane-wise absolute value, which wraps.
    fn abs(self) -> Self;

    /// The lane-wise absolute value, clamped to the range of the lane type.
    fn saturating_abs(self) -> Self;

    /// The lane-wise negation, clamped to the range of the lane type.
    fn saturating_neg(self) -> Self;

    /// The mask of the lanes that hold more than zero.
    fn is_positive(self) -> Self::Mask;

    /// The mask of the lanes that hold less than zero.
    fn is_negative(self) -> Self::Mask;

    /// The signs of the lanes.
    fn signum(self) -> Self;

    /// The sum of the lanes, which wraps.
    fn reduce_sum(self) -> T;

    /// The product of the lanes, which wraps.
    fn reduce_product(self) -> T;

    /// The greatest of the lanes. The vector has at least one lane.
    fn reduce_max(self) -> T
        requires
            Self::lane_count() > 0,
    ;

    /// The least of the lanes. The vector has at least one lane.
    fn reduce_min(self) -> T
        requires
            Self::lane_count() > 0,
    ;

    /// The bitwise "and" of the lanes. The vector has at least one lane.
    fn reduce_and(self) -> T
        requires
            Self::lane_count() > 0,
    ;

    /// The bitwise "or" of the lanes. The vector has at least one lane.
    fn reduce_or(self) -> T
        requires
            Self::lane_count() > 0,
    ;

    /// The bitwise "xor" of the lanes. The vector has at least one lane.
    fn reduce_xor(self) -> T
        requires
            Self::lane_count() > 0,
    ;
}

impl<T: SInt + SimdElement, const N: usize> SimdInt<T> for Simd<T, N> {
    type Mask = Mask<T, N>;

    open spec fn lane_count() -> nat {
        N as nat
    }

    fn saturating_add(self, second: Self) -> (r: Self)
        ensures
            lanewise(LaneOp::SaturatingAdd, self@, second@, r@),
    {
        self.combine(second, LaneOp::SaturatingAdd)
    }

    fn saturating_sub(self, second: Self) -> (r: Self)
        ensures
            lanewise(LaneOp::SaturatingSub, self@, second@, r@),
    {
        self.combine(second, LaneOp::SaturatingSub)
    }

    fn abs(self) -> (r: Self)
        ensures
            lanes_hold(self@, r@, |v: int| wrapped(abs_value(v), T::least(), T::greatest())),
    {
        <Self as SimdAbs>::abs(self)
    }

    fn saturating_abs(self) -> (r: Self)
        ensures
            lanes_hold(self@, r@, |v: int| clamped(abs_value(v), T::least(), T::greatest())),
    {
        Simd::saturating_abs(self)
    }

    fn saturating_neg(self) -> (r: Self)
        ensures
            lanes_hold(self@, r@, |v: int| clamped(-v, T::least(), T::greatest())),
    {
        Simd::saturating_neg(self)
    }

    fn is_positive(self) -> (m: Mask<T, N>)
        ensures
            m@ == Seq::new(N as nat, |i: int| self@[i].value() > 0),
    {
        Simd::is_positive(self)
    }

    fn is_negative(self) -> (m: Mask<T, N>)
        ensures
            m@ == Seq::new(N as nat, |i: int| self@[i].value() < 0),
    {
        Simd::is_negative(self)
    }

    fn signum(self) -> (r: Self)
        ensures
            lanes_hold(self@, r@, |v: int| sign_of(v)),
    {
        <Self as SimdSignum>::signum(self)
    }

    fn reduce_sum(self) -> (r: T)
        ensures
            r.value() == wrapped(sum_of(self@), T::least(), T::greatest()),
    {
        self.horizontal_sum()
    }

    fn reduce_product(self) -> (r: T)
        ensures
            r.value() == wrapped(product_of(self@), T::least(), T::greatest()),
    {
        self.horizontal_product()
    }

    fn reduce_max(self) -> (r: T)
        ensures
            is_greatest(r, self@),
    {
        self.horizontal_max()
    }

    fn reduce_min(self) -> (r: T)
        ensures
            is_least(r, self@),
    {
        self.horizontal_min()
    }

    fn reduce_and(self) -> (r: T)
        ensures
            r == and_of(self@),
    {
        self.horizontal_and()
    }

    fn reduce_or(self) -> (r: T)
        ensures
            r == or_of(self@),
    {
        self.horizontal_or()
    }

    fn reduce_xor(self) -> (r: T)
        ensures
            r == xor_of(self@),
    {
        self.horizontal_xor()
    }
}

} // verus!
