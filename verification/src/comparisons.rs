//! Comparing two vectors lane by lane. The result is a mask: lane `i` is set
//! exactly where the relation holds between lane `i` of the one vector and
//! lane `i` of the other.

use crate::element::{Int, SimdElement};
use crate::masks::{lemma_mask_len, Mask};
use crate::select::Select;
use crate::vector::{lemma_simd_len, Simd};
use vstd::prelude::*;

verus! {

broadcast use {lemma_simd_len, lemma_mask_len};

/// One of the six relations between two integers.
#[derive(Clone, Copy)]
pub enum Relation {
    /// The two are equal.
    Equal,
    /// The two are different.
    NotEqual,
    /// The first is less than the second.
    Less,
    /// The first is at most the second.
    LessOrEqual,
    /// The first is greater than the second.
    Greater,
    /// The first is at least the second.
    GreaterOrEqual,
}

impl Relation {
    /// Whether the relation holds between `x` and `y`.
    pub open spec fn holds(self, x: int, y: int) -> bool {
        match self {
            Relation::Equal => x == y,
            Relation::NotEqual => x != y,
            Relation::Less => x < y,
            Relation::LessOrEqual => x <= y,
            Relation::Greater => x > y,
            Relation::GreaterOrEqual => x >= y,
        }
    }

    /// Whether the relation holds between what two lanes hold.
    pub fn test<T: Int>(self, a: T, b: T) -> (r: bool)
        ensures
            r == self.holds(a.value(), b.value()),
    {
        match self {
            Relation::Equal => a.lane_eq(b),
            Relation::NotEqual => !a.lane_eq(b),
            Relation::Less => a.lane_lt(b),
            Relation::LessOrEqual => a.lane_le(b),
            Relation::Greater => b.lane_lt(a),
            Relation::GreaterOrEqual => b.lane_le(a),
        }
    }
}

/// The lanes of the comparison of `a` with `b` under `relation`.
pub open spec fn compared<T: Int>(a: Seq<T>, b: Seq<T>, relation: Relation) -> Seq<bool> {
    Seq::new(a.len(), |i: int| relation.holds(a[i].value(), b[i].value()))
}

/// The lanes that hold the lesser of the two lanes of `a` and `b`.
pub open spec fn lesser_lanes<T: Int>(a: Seq<T>, b: Seq<T>) -> Seq<T> {
    Seq::new(
        a.len(),
        |i: int|
            if a[i].value() > b[i].value() {
                b[i]
            } else {
                a[i]
            },
    )
}

/// The lanes that hold the greater of the two lanes of `a` and `b`.
pub open spec fn greater_lanes<T: Int>(a: Seq<T>, b: Seq<T>) -> Seq<T> {
    Seq::new(
        a.len(),
        |i: int|
            if a[i].value() < b[i].value() {
                b[i]
            } else {
                a[i]
            },
    )
}

impl<T: Int + SimdElement, const LANES: usize> Simd<T, LANES> {
    /// The mask of the lanes in which `relation` holds between `self` and
    /// `other`.
    pub fn compare(self, other: Self, relation: Relation) -> (m: Mask<T, LANES>)
        ensures
            m@ == compared(self@, other@, relation),
    {
        let mut lanes = [false;LANES];
        let mut i: usize = 0;
        while i < LANES
            invariant
                i <= LANES,
                lanes@.len() == LANES,
                forall|j: int|
                    0 <= j < i ==> lanes@[j] == relation.holds(self@[j].value(), other@[j].value()),
            decreases LANES - i,
        {
            lanes[i] = relation.test(self.lane(i), other.lane(i));
            i += 1;
        }
        let m = Mask::from_array(lanes);
        assert(m@ =~= compared(self@, other@, relation));
        m
    }

    /// Tests whether each lane is equal to the lane of `other`.
    pub fn lanes_eq(self, other: Self) -> (m: Mask<T, LANES>)
        ensures
            m@ == compared(self@, other@, Relation::Equal),
    {
        self.compare(other, Relation::Equal)
    }

    /// Tests whether each lane is different from the lane of `other`.
    pub fn lanes_ne(self, other: Self) -> (m: Mask<T, LANES>)
        ensures
            m@ == compared(self@, other@, Relation::NotEqual),
    {
        self.compare(other, Relation::NotEqual)
    }

    /// Tests whether each lane is less than the lane of `other`.
    pub fn lanes_lt(self, other: Self) -> (m: Mask<T, LANES>)
        ensures
            m@ == compared(self@, other@, Relation::Less),
    {
        self.compare(other, Relation::Less)
    }

    /// Tests whether each lane is greater than the lane of `other`.
    pub fn lanes_gt(self, other: Self) -> (m: Mask<T, LANES>)
        ensures
            m@ == compared(self@, other@, Relation::Greater),
    {
        self.compare(other, Relation::Greater)
    }

    /// Tests whether each lane is at most the lane of `other`.
    pub fn lanes_le(self, other: Self) -> (m: Mask<T, LANES>)
        ensures
            m@ == compared(self@, other@, Relation::LessOrEqual),
    {
        self.compare(other, Relation::LessOrEqual)
    }

    /// Tests whether each lane is at least the lane of `other`.
    pub fn lanes_ge(self, other: Self) -> (m: Mask<T, LANES>)
        ensures
            m@ == compared(self@, other@, Relation::GreaterOrEqual),
    {
        self.compare(other, Relation::GreaterOrEqual)
    }

    /// The vector that holds, in each lane, the lesser of the lanes of
    /// `self` and `other`.
    pub fn min(self, other: Self) -> (r: Self)
        ensures
            r@ == lesser_lanes(self@, other@),
    {
        let r = self.lanes_gt(other).select(other, self);
        assert(r@ =~= lesser_lanes(self@, other@));
        r
    }

    /// The vector that holds, in each lane, the greater of the lanes of
    /// `self` and `other`.
    pub fn max(self, other: Self) -> (r: Self)
        ensures
            r@ == greater_lanes(self@, other@),
    {
        let r = self.lanes_lt(other).select(other, self);
        assert(r@ =~= greater_lanes(self@, other@));
        r
    }
}

} // verus!
