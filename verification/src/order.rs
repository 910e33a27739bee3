//! Comparison as traits: what the vectors and the masks have in common.
//!
//! A mask compares as the vector of integers that represents it, in which a
//! lane that is set holds `-1` and is therefore less than one that is not.

use crate::comparisons::{compared, greater_lanes, lesser_lanes, Relation};
use crate::element::{Int, SimdElement};
use crate::masks::{lemma_mask_len, mask_lane_of, Mask};
use crate::select::Select;
use crate::vector::{lemma_simd_len, Simd};
use vstd::prelude::*;

verus! {

broadcast use {lemma_simd_len, lemma_mask_len};

/// Parallel `PartialEq`.
pub trait SimdPartialEq: Sized {
    /// The mask type returned by each comparison.
    type Mask;

    /// Tests whether each lane is equal to the lane of `other`.
    fn simd_eq(self, other: Self) -> Self::Mask;

    /// Tests whether each lane is different from the lane of `other`.
    fn simd_ne(self, other: Self) -> Self::Mask;
}

/// Parallel `PartialOrd`.
pub trait SimdPartialOrd: SimdPartialEq {
    /// Tests whether each lane is less than the lane of `other`.
    fn simd_lt(self, other: Self) -> Self::Mask;

    /// Tests whether each lane is at most the lane of `other`.
    fn simd_le(self, other: Self) -> Self::Mask;

    /// Tests whether each lane is greater than the lane of `other`.
    fn simd_gt(self, other: Self) -> Self::Mask;

    /// Tests whether each lane is at least the lane of `other`.
    fn simd_ge(self, other: Self) -> Self::Mask;
}

/// Parallel `Ord`.
pub trait SimdOrd: SimdPartialOrd {
    /// Whether no lane of `min` is greater than the lane of `max`, so that
    /// the two can be the bounds of a clamp.
    spec fn clamp_req(min: Self, max: Self) -> bool;

    /// The lane-wise maximum with `other`.
    fn simd_max(self, other: Self) -> Self;

    /// The lane-wise minimum with `other`.
    fn simd_min(self, other: Self) -> Self;

    /// Each lane restricted to the interval from the lane of `min` to the
    /// lane of `max`: the bound where the lane lies beyond it, the lane
    /// itself where it lies between. No lane of `min` is greater than the
    /// lane of `max`.
    fn simd_clamp(self, min: Self, max: Self) -> Self
        requires
            Self::clamp_req(min, max),
    ;
}

/// The lanes of `lanes`, each restricted to the interval from the lane of
/// `min` to the lane of `max`.
pub open spec fn clamped_lanes<T: Int>(lanes: Seq<T>, min: Seq<T>, max: Seq<T>) -> Seq<T> {
    Seq::new(
        lanes.len(),
        |i: int|
            if lanes[i].value() < min[i].value() {
                min[i]
            } else if lanes[i].value() > max[i].value() {
                max[i]
            } else {
                lanes[i]
            },
    )
}

/// The lanes of a mask as the integers that represent them.
pub open spec fn mask_values(lanes: Seq<bool>) -> Seq<int> {
    Seq::new(lanes.len(), |i: int| mask_lane_of(lanes[i]))
}

/// The lanes of the comparison of two masks under `relation`, each lane
/// taken as the integer that represents it.
pub open spec fn compared_masks(a: Seq<bool>, b: Seq<bool>, relation: Relation) -> Seq<bool> {
    Seq::new(a.len(), |i: int| relation.holds(mask_lane_of(a[i]), mask_lane_of(b[i])))
}

impl<T: Int + SimdElement, const N: usize> SimdPartialEq for Simd<T, N> {
    type Mask = Mask<T, N>;

    fn simd_eq(self, other: Self) -> (m: Mask<T, N>)
        ensures
            m@ == compared(self@, other@, Relation::Equal),
    {
        self.lanes_eq(other)
    }

    fn simd_ne(self, other: Self) -> (m: Mask<T, N>)
        ensures
            m@ == compared(self@, other@, Relation::NotEqual),
    {
        self.lanes_ne(other)
    }
}

impl<T: Int + SimdElement, const N: usize> SimdPartialOrd for Simd<T, N> {
    fn simd_lt(self, other: Self) -> (m: Mask<T, N>)
        ensures
            m@ == compared(self@, other@, Relation::Less),
    {
        self.lanes_lt(other)
    }

    fn simd_le(self, other: Self) -> (m: Mask<T, N>)
        ensures
            m@ == compared(self@, other@, Relation::LessOrEqual),
    {
        self.lanes_le(other)
    }

    fn simd_gt(self, other: Self) -> (m: Mask<T, N>)
        ensures
            m@ == compared(self@, other@, Relation::Greater),
    {
        self.lanes_gt(other)
    }

    fn simd_ge(self, other: Self) -> (m: Mask<T, N>)
        ensures
            m@ == compared(self@, other@, Relation::GreaterOrEqual),
    {
        self.lanes_ge(other)
    }
}

impl<T: Int + SimdElement, const N: usize> SimdOrd for Simd<T, N> {
    open spec fn clamp_req(min: Self, max: Self) -> bool {
        forall|i: int| 0 <= i < N ==> min@[i].value() <= max@[i].value()
    }

    fn simd_max(self, other: Self) -> (r: Self)
        ensures
            r@ == greater_lanes(self@, other@),
    {
        let r = self.simd_lt(other).select(other, self);
        assert(r@ =~= greater_lanes(self@, other@));
        r
    }

    fn simd_min(self, other: Self) -> (r: Self)
        ensures
            r@ == lesser_lanes(self@, other@),
    {
        let r = self.simd_gt(other).select(other, self);
        assert(r@ =~= lesser_lanes(self@, other@));
        r
    }

    fn simd_clamp(self, min: Self, max: Self) -> (r: Self)
        ensures
            r@ == clamped_lanes(self@, min@, max@),
    {
        let r = self.simd_max(min).simd_min(max);
        assert(r@ =~= clamped_lanes(self@, min@, max@));
        r
    }
}

impl<T: SimdElement, const N: usize> Mask<T, N> {
    /// The mask of the lanes in which `relation` holds between the integers
    /// that represent the lanes of `self` and of `other`.
    pub fn compare(self, other: Self, relation: Relation) -> (m: Self)
        ensures
            m@ == compared_masks(self@, other@, relation),
    {
        let a = self.to_simd();
        let b = other.to_simd();
        let mut lanes = [false;N];
        let mut i: usize = 0;
        while i < N
            invariant
                i <= N,
                lanes@.len() == N,
                a@.len() == N,
                b@.len() == N,
                forall|j: int| 0 <= j < N ==> (#[trigger] a@[j]).value() == mask_lane_of(self@[j]),
                forall|j: int| 0 <= j < N ==> (#[trigger] b@[j]).value() == mask_lane_of(other@[j]),
                forall|j: int|
                    0 <= j < i ==> lanes@[j] == relation.holds(
                        mask_lane_of(self@[j]),
                        mask_lane_of(other@[j]),
                    ),
            decreases N - i,
        {
            lanes[i] = relation.test(a.lane(i), b.lane(i));
            i += 1;
        }
        let m = Mask::from_array(lanes);
        assert(m@ =~= compared_masks(self@, other@, relation));
        m
    }
}

impl<T: SimdElement, const N: usize> SimdPartialEq for Mask<T, N> {
    type Mask = Self;

    fn simd_eq(self, other: Self) -> (m: Self)
        ensures
            m@ == Seq::new(N as nat, |i: int| self@[i] == other@[i]),
    {
        let m = self.compare(other, Relation::Equal);
        assert(m@ =~= Seq::new(N as nat, |i: int| self@[i] == other@[i]));
        m
    }

    fn simd_ne(self, other: Self) -> (m: Self)
        ensures
            m@ == Seq::new(N as nat, |i: int| self@[i] != other@[i]),
    {
        let m = self.compare(other, Relation::NotEqual);
        assert(m@ =~= Seq::new(N as nat, |i: int| self@[i] != other@[i]));
        m
    }
}

impl<T: SimdElement, const N: usize> SimdPartialOrd for Mask<T, N> {
    fn simd_lt(self, other: Self) -> (m: Self)
        ensures
            m@ == compared_masks(self@, other@, Relation::Less),
    {
        self.compare(other, Relation::Less)
    }

    fn simd_le(self, other: Self) -> (m: Self)
        ensures
            m@ == compared_masks(self@, other@, Relation::LessOrEqual),
    {
        self.compare(other, Relation::LessOrEqual)
    }

    fn simd_gt(self, other: Self) -> (m: Self)
        ensures
            m@ == compared_masks(self@, other@, Relation::Greater),
    {
        self.compare(other, Relation::Greater)
    }

    fn simd_ge(self, other: Self) -> (m: Self)
        ensures
            m@ == compared_masks(self@, other@, Relation::GreaterOrEqual),
    {
        self.compare(other, Relation::GreaterOrEqual)
    }
}

impl<T: SimdElement, const N: usize> SimdOrd for Mask<T, N> {
    open spec fn clamp_req(min: Self, max: Self) -> bool {
        forall|i: int| 0 <= i < N ==> mask_lane_of(min@[i]) <= mask_lane_of(max@[i])
    }

    /// The maximum goes by `true` and `false`: a lane is set where it is set
    /// in either mask.
    fn simd_max(self, other: Self) -> (r: Self)
        ensures
            r@ == Seq::new(N as nat, |i: int| self@[i] || other@[i]),
    {
        let r = self.simd_gt(other).select(other, self);
        assert(r@ =~= Seq::new(N as nat, |i: int| self@[i] || other@[i]));
        r
    }

    /// The minimum goes by `true` and `false`: a lane is set where it is set
    /// in both masks.
    fn simd_min(self, other: Self) -> (r: Self)
        ensures
            r@ == Seq::new(N as nat, |i: int| self@[i] && other@[i]),
    {
        let r = self.simd_lt(other).select(other, self);
        assert(r@ =~= Seq::new(N as nat, |i: int| self@[i] && other@[i]));
        r
    }

    fn simd_clamp(self, min: Self, max: Self) -> (r: Self)
        ensures
            r@ == Seq::new(N as nat, |i: int| (self@[i] || min@[i]) && max@[i]),
    {
        let r = self.simd_max(min).simd_min(max);
        assert(r@ =~= Seq::new(N as nat, |i: int| (self@[i] || min@[i]) && max@[i]));
        r
    }
}

} // verus!
