//! Reductions: one value made of all the lanes of a vector.

use crate::element::{lemma_wrapped_remainder, wrapped, Int};
use crate::vector::{lemma_simd_len, Simd};
use vstd::arithmetic::div_mod::{
    lemma_add_mod_noop, lemma_mod_add_multiples_vanish, lemma_mod_bound, lemma_mod_twice,
    lemma_mul_mod_noop, lemma_small_mod,
};
use vstd::prelude::*;

verus! {

broadcast use lemma_simd_len;

/// The sum of what the lanes hold, as a mathematical integer.
pub open spec fn sum_of<T: Int>(lanes: Seq<T>) -> int
    decreases lanes.len(),
{
    if lanes.len() == 0 {
        0
    } else {
        sum_of(lanes.drop_last()) + lanes.last().value()
    }
}

/// The product of what the lanes hold, as a mathematical integer.
pub open spec fn product_of<T: Int>(lanes: Seq<T>) -> int
    decreases lanes.len(),
{
    if lanes.len() == 0 {
        1
    } else {
        product_of(lanes.drop_last()) * lanes.last().value()
    }
}

/// The bitwise "and" of all the lanes, of which there is at least one.
pub open spec fn and_of<T: Int>(lanes: Seq<T>) -> T
    decreases lanes.len(),
{
    if lanes.len() <= 1 {
        lanes[0]
    } else {
        and_of(lanes.drop_last()).bit_and(lanes.last())
    }
}

/// The bitwise "or" of all the lanes, of which there is at least one.
pub open spec fn or_of<T: Int>(lanes: Seq<T>) -> T
    decreases lanes.len(),
{
    if lanes.len() <= 1 {
        lanes[0]
    } else {
        or_of(lanes.drop_last()).bit_or(lanes.last())
    }
}

/// The bitwise "xor" of all the lanes, of which there is at least one.
pub open spec fn xor_of<T: Int>(lanes: Seq<T>) -> T
    decreases lanes.len(),
{
    if lanes.len() <= 1 {
        lanes[0]
    } else {
        xor_of(lanes.drop_last()).bit_xor(lanes.last())
    }
}

/// Whether `greatest` is one of the lanes and no lane holds more.
pub open spec fn is_greatest<T: Int>(greatest: T, lanes: Seq<T>) -> bool {
    &&& exists|i: int| 0 <= i < lanes.len() && lanes[i] == greatest
    &&& forall|i: int| 0 <= i < lanes.len() ==> lanes[i].value() <= greatest.value()
}

/// Whether `least` is one of the lanes and no lane holds less.
pub open spec fn is_least<T: Int>(least: T, lanes: Seq<T>) -> bool {
    &&& exists|i: int| 0 <= i < lanes.len() && lanes[i] == least
    &&& forall|i: int| 0 <= i < lanes.len() ==> lanes[i].value() >= least.value()
}

/// Wrapping a sum is the same whether or not one of its terms was wrapped
/// before.
pub proof fn lemma_wrapped_sum(a: int, b: int, min: int, max: int)
    requires
        min <= 0 <= max,
    ensures
        wrapped(wrapped(a, min, max) + b, min, max) == wrapped(a + b, min, max),
{
    let m = max - min + 1;
    lemma_wrapped_remainder(a, min, max);
    lemma_wrapped_remainder(wrapped(a, min, max) + b, min, max);
    lemma_wrapped_remainder(a + b, min, max);
    let w = wrapped(a, min, max);
    assert(w % m == a % m) by {
        lemma_mod_bound(a, m);
        if a % m > max {
            lemma_mod_add_multiples_vanish(a % m - m, m);
        }
        lemma_mod_twice(a, m);
    }
    lemma_add_mod_noop(w, b, m);
    lemma_add_mod_noop(a, b, m);
}

/// Wrapping a product is the same whether or not one of its factors was
/// wrapped before.
pub proof fn lemma_wrapped_product(a: int, b: int, min: int, max: int)
    requires
        min <= 0 <= max,
    ensures
        wrapped(wrapped(a, min, max) * b, min, max) == wrapped(a * b, min, max),
{
    let m = max - min + 1;
    lemma_wrapped_remainder(a, min, max);
    lemma_wrapped_remainder(wrapped(a, min, max) * b, min, max);
    lemma_wrapped_remainder(a * b, min, max);
    let w = wrapped(a, min, max);
    assert(w % m == a % m) by {
        lemma_mod_bound(a, m);
        if a % m > max {
            lemma_mod_add_multiples_vanish(a % m - m, m);
        }
        lemma_mod_twice(a, m);
    }
    lemma_mul_mod_noop(w, b, m);
    lemma_mul_mod_noop(a, b, m);
}

/// A vector whose lanes can be added and multiplied into one value.
pub trait HorizontalArith: Sized {
    /// The type of the lanes.
    type Scalar;

    /// The sum of the lanes, wrapped into the range of the lane type.
    fn horizontal_sum(self) -> Self::Scalar;

    /// The product of the lanes, wrapped into the range of the lane type.
    fn horizontal_product(self) -> Self::Scalar;
}

impl<T: Int, const LANES: usize> HorizontalArith for Simd<T, LANES> {
    type Scalar = T;

    fn horizontal_sum(self) -> (r: T)
        ensures
            r.value() == wrapped(sum_of(self@), T::least(), T::greatest()),
    {
        proof {
            T::lemma_range();
            lemma_small_mod(0, (T::greatest() - T::least() + 1) as nat);
            lemma_wrapped_remainder(0, T::least(), T::greatest());
        }
        let mut sum = T::lane_zero();
        let mut i: usize = 0;
        while i < LANES
            invariant
                i <= LANES,
                T::least() <= 0 <= T::greatest(),
                sum.value() == wrapped(sum_of(self@.take(i as int)), T::least(), T::greatest()),
            decreases LANES - i,
        {
            proof {
                let next = self@.take(i + 1);
                assert(next.drop_last() =~= self@.take(i as int));
                lemma_wrapped_sum(
                    sum_of(self@.take(i as int)),
                    self@[i as int].value(),
                    T::least(),
                    T::greatest(),
                );
            }
            sum = sum.lane_wrapping_add(self.lane(i));
            i += 1;
        }
        assert(self@.take(LANES as int) =~= self@);
        sum
    }

    fn horizontal_product(self) -> (r: T)
        ensures
            r.value() == wrapped(product_of(self@), T::least(), T::greatest()),
    {
        proof {
            T::lemma_range();
            lemma_small_mod(1, (T::greatest() - T::least() + 1) as nat);
            lemma_wrapped_remainder(1, T::least(), T::greatest());
        }
        let mut product = T::lane_one();
        let mut i: usize = 0;
        while i < LANES
            invariant
                i <= LANES,
                T::least() <= 0 <= T::greatest(),
                product.value() == wrapped(
                    product_of(self@.take(i as int)),
                    T::least(),
                    T::greatest(),
                ),
            decreases LANES - i,
        {
            proof {
                let next = self@.take(i + 1);
                assert(next.drop_last() =~= self@.take(i as int));
                lemma_wrapped_product(
                    product_of(self@.take(i as int)),
                    self@[i as int].value(),
                    T::least(),
                    T::greatest(),
                );
            }
            product = product.lane_wrapping_mul(self.lane(i));
            i += 1;
        }
        assert(self@.take(LANES as int) =~= self@);
        product
    }
}

impl<T: Int, const LANES: usize> Simd<T, LANES> {
    /// The bitwise "and" of all the lanes. The vector has at least one lane.
    pub fn horizontal_and(self) -> (r: T)
        requires
            LANES > 0,
        ensures
            r == and_of(self@),
    {
        let mut r = self.lane(0);
        let mut i: usize = 1;
        assert(self@.take(1).len() == 1);
        while i < LANES
            invariant
                1 <= i <= LANES,
                r == and_of(self@.take(i as int)),
            decreases LANES - i,
        {
            assert(self@.take(i + 1).drop_last() =~= self@.take(i as int));
            r = r.lane_and(self.lane(i));
            i += 1;
        }
        assert(self@.take(LANES as int) =~= self@);
        r
    }

    /// The bitwise "or" of all the lanes. The vector has at least one lane.
    pub fn horizontal_or(self) -> (r: T)
        requires
            LANES > 0,
        ensures
            r == or_of(self@),
    {
        let mut r = self.lane(0);
        let mut i: usize = 1;
        assert(self@.take(1).len() == 1);
        while i < LANES
            invariant
                1 <= i <= LANES,
                r == or_of(self@.take(i as int)),
            decreases LANES - i,
        {
            assert(self@.take(i + 1).drop_last() =~= self@.take(i as int));
            r = r.lane_or(self.lane(i));
            i += 1;
        }
        assert(self@.take(LANES as int) =~= self@);
        r
    }

    /// The bitwise "xor" of all the lanes. The vector has at least one lane.
    pub fn horizontal_xor(self) -> (r: T)
        requires
            LANES > 0,
        ensures
            r == xor_of(self@),
    {
        let mut r = self.lane(0);
        let mut i: usize = 1;
        assert(self@.take(1).len() == 1);
        while i < LANES
            invariant
                1 <= i <= LANES,
                r == xor_of(self@.take(i as int)),
            decreases LANES - i,
        {
            assert(self@.take(i + 1).drop_last() =~= self@.take(i as int));
            r = r.lane_xor(self.lane(i));
            i += 1;
        }
        assert(self@.take(LANES as int) =~= self@);
        r
    }

    /// The greatest of the lanes. The vector has at least one lane.
    pub fn horizontal_max(self) -> (r: T)
        requires
            LANES > 0,
        ensures
            is_greatest(r, self@),
    {
        let mut r = self.lane(0);
        let mut i: usize = 1;
        while i < LANES
            invariant
                1 <= i <= LANES,
                exists|j: int| 0 <= j < i && self@[j] == r,
                forall|j: int| 0 <= j < i ==> self@[j].value() <= r.value(),
            decreases LANES - i,
        {
            if r.lane_lt(self.lane(i)) {
                r = self.lane(i);
            }
            i += 1;
        }
        r
    }

    /// The least of the lanes. The vector has at least one lane.
    pub fn horizontal_min(self) -> (r: T)
        requires
            LANES > 0,
        ensures
            is_least(r, self@),
    {
        let mut r = self.lane(0);
        let mut i: usize = 1;
        while i < LANES
            invariant
                1 <= i <= LANES,
                exists|j: int| 0 <= j < i && self@[j] == r,
                forall|j: int| 0 <= j < i ==> self@[j].value() >= r.value(),
            decreases LANES - i,
        {
            if self.lane(i).lane_lt(r) {
                r = self.lane(i);
            }
            i += 1;
        }
        r
    }

    /// The sum of the lanes, wrapped into the range of the lane type.
    pub fn horizontal_sum(self) -> (r: T)
        ensures
            r.value() == wrapped(sum_of(self@), T::least(), T::greatest()),
    {
        <Self as HorizontalArith>::horizontal_sum(self)
    }

    /// The product of the lanes, wrapped into the range of the lane type.
    pub fn horizontal_product(self) -> (r: T)
        ensures
            r.value() == wrapped(product_of(self@), T::least(), T::greatest()),
    {
        <Self as HorizontalArith>::horizontal_product(self)
    }

    /// The sum of the lanes, wrapped into the range of the lane type.
    pub fn reduce_sum(self) -> (r: T)
        ensures
            r.value() == wrapped(sum_of(self@), T::least(), T::greatest()),
    {
        self.horizontal_sum()
    }

    /// The product of the lanes, wrapped into the range of the lane type.
    pub fn reduce_product(self) -> (r: T)
        ensures
            r.value() == wrapped(product_of(self@), T::least(), T::greatest()),
    {
        self.horizontal_product()
    }

    /// The greatest of the lanes. The vector has at least one lane.
    pub fn reduce_max(self) -> (r: T)
        requires
            LANES > 0,
        ensures
            is_greatest(r, self@),
    {
        self.horizontal_max()
    }

    /// The least of the lanes. The vector has at least one lane.
    pub fn reduce_min(self) -> (r: T)
        requires
            LANES > 0,
        ensures
            is_least(r, self@),
    {
        self.horizontal_min()
    }

    /// The bitwise "and" of all the lanes. The vector has at least one lane.
    pub fn reduce_and(self) -> (r: T)
        requires
            LANES > 0,
        ensures
            r == and_of(self@),
    {
        self.horizontal_and()
    }

    /// The bitwise "or" of all the lanes. The vector has at least one lane.
    pub fn reduce_or(self) -> (r: T)
        requires
            LANES > 0,
        ensures
            r == or_of(self@),
    {
        self.horizontal_or()
    }

    /// The bitwise "xor" of all the lanes. The vector has at least one lane.
    pub fn reduce_xor(self) -> (r: T)
        requires
            LANES > 0,
        ensures
            r == xor_of(self@),
    {
        self.horizontal_xor()
    }
}

} // verus!
