//! The order of vectors and of masks: that of their lanes, the first lane
//! counting most.

use crate::element::{Int, SimdElement};
use crate::masks::{lemma_mask_len, Mask};
use crate::vector::{index_of, lemma_simd_len, Simd};
use core::cmp::Ordering;
use vstd::prelude::*;
use vstd::std_specs::cmp::PartialOrdSpecImpl;

verus! {

broadcast use {lemma_simd_len, lemma_mask_len};

/// The order of two sequences of integers of the same length: that of the
/// first two elements that differ, and equality where none do.
pub open spec fn lexical_order(a: Seq<int>, b: Seq<int>) -> Ordering
    decreases a.len(),
{
    if a.len() == 0 || b.len() == 0 {
        Ordering::Equal
    } else if a[0] < b[0] {
        Ordering::Less
    } else if a[0] > b[0] {
        Ordering::Greater
    } else {
        lexical_order(a.skip(1), b.skip(1))
    }
}

/// What the lanes hold.
pub open spec fn values_of<T: Int>(lanes: Seq<T>) -> Seq<int> {
    Seq::new(lanes.len(), |i: int| lanes[i].value())
}

/// The lanes of a mask as integers: `1` for a lane that is set and `0` for
/// one that is not.
pub open spec fn truth_values(lanes: Seq<bool>) -> Seq<int> {
    Seq::new(
        lanes.len(),
        |i: int|
            if lanes[i] {
                1int
            } else {
                0int
            },
    )
}

/// Sequences that agree up to the place `k` and differ there are ordered as
/// their elements at `k`.
pub proof fn lemma_first_difference(a: Seq<int>, b: Seq<int>, k: int)
    requires
        a.len() == b.len(),
        0 <= k < a.len(),
        forall|j: int| 0 <= j < k ==> a[j] == b[j],
        a[k] != b[k],
    ensures
        lexical_order(a, b) == if a[k] < b[k] {
            Ordering::Less
        } else {
            Ordering::Greater
        },
    decreases k,
{
    if k > 0 {
        assert(a[0] == b[0]);
        lemma_first_difference(a.skip(1), b.skip(1), k - 1);
    }
}

/// Sequences that agree in every place are equal in the order.
pub proof fn lemma_no_difference(a: Seq<int>, b: Seq<int>)
    requires
        a.len() == b.len(),
        forall|j: int| 0 <= j < a.len() ==> a[j] == b[j],
    ensures
        lexical_order(a, b) == Ordering::Equal,
    decreases a.len(),
{
    if a.len() > 0 {
        assert(a[0] == b[0]);
        lemma_no_difference(a.skip(1), b.skip(1));
    }
}

impl<T: Int, const N: usize> PartialOrd for Simd<T, N> {
    /// Vectors are ordered by their lanes, the first lane counting most.
    fn partial_cmp(&self, other: &Self) -> (r: Option<Ordering>) {
        let ghost a = values_of(self@);
        let ghost b = values_of(other@);
        let mut i: usize = 0;
        while i < N
            invariant
                i <= N,
                a == values_of(self@),
                b == values_of(other@),
                forall|j: int| 0 <= j < index_of(i) ==> a[j] == b[j],
            decreases N - i,
        {
            if self.lane(i).lane_lt(other.lane(i)) {
                proof {
                    lemma_first_difference(a, b, index_of(i));
                }
                return Some(Ordering::Less);
            }
            if other.lane(i).lane_lt(self.lane(i)) {
                proof {
                    lemma_first_difference(a, b, index_of(i));
                }
                return Some(Ordering::Greater);
            }
            i += 1;
        }
        proof {
            lemma_no_difference(a, b);
        }
        Some(Ordering::Equal)
    }
}

impl<T: Int, const N: usize> PartialOrdSpecImpl for Simd<T, N> {
    open spec fn obeys_partial_cmp_spec() -> bool {
        true
    }

    open spec fn partial_cmp_spec(&self, other: &Self) -> Option<Ordering> {
        Some(lexical_order(values_of(self@), values_of(other@)))
    }
}

impl<T: SimdElement, const N: usize> PartialOrd for Mask<T, N> {
    /// Masks are ordered by their lanes, the first lane counting most, and a
    /// lane that is set counting more than one that is not.
    fn partial_cmp(&self, other: &Self) -> (r: Option<Ordering>) {
        let ghost a = truth_values(self@);
        let ghost b = truth_values(other@);
        let mut i: usize = 0;
        while i < N
            invariant
                i <= N,
                a == truth_values(self@),
                b == truth_values(other@),
                forall|j: int| 0 <= j < index_of(i) ==> a[j] == b[j],
            decreases N - i,
        {
            let x = self.test(i);
            let y = other.test(i);
            if !x && y {
                proof {
                    lemma_first_difference(a, b, index_of(i));
                }
                return Some(Ordering::Less);
            }
            if x && !y {
                proof {
                    lemma_first_difference(a, b, index_of(i));
                }
                return Some(Ordering::Greater);
            }
            i += 1;
        }
        proof {
            lemma_no_difference(a, b);
        }
        Some(Ordering::Equal)
    }
}

impl<T: SimdElement, const N: usize> PartialOrdSpecImpl for Mask<T, N> {
    open spec fn obeys_partial_cmp_spec() -> bool {
        true
    }

    open spec fn partial_cmp_spec(&self, other: &Self) -> Option<Ordering> {
        Some(lexical_order(truth_values(self@), truth_values(other@)))
    }
}

} // verus!
