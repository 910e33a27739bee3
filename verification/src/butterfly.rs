//! The sum of all lanes by butterfly steps.
//!
//! A butterfly step at distance `d` adds to each lane the lane that lies `d`
//! away from it within its pair of blocks of `d` lanes, which is the lane
//! that [`Simd::general_reverse`](crate::vector::Simd::general_reverse)
//! brings there. After the steps at the distances 1, 2, 4 and so on up to
//! half the number of lanes, every lane holds the sum of all the lanes, as
//! [`Simd::reduce_sum`](crate::vector::Simd::reduce_sum) gives it.

use crate::element::{lemma_wrapped_once, wrapped, Int};
use crate::ops::{lanewise, LaneOp};
use crate::reduction::{lemma_wrapped_sum, sum_of};
use crate::swizzle::{general_reversed, xor_index};
use vstd::arithmetic::div_mod::{
    lemma_fundamental_div_mod, lemma_fundamental_div_mod_converse, lemma_mod_multiples_basic,
};
use vstd::arithmetic::power2::{lemma_pow2_adds, lemma_pow2_pos, lemma_pow2_unfold, pow2};
use vstd::prelude::*;

verus! {

/// The sum of what the lanes from `lo` up to, but not including, `hi` hold.
pub open spec fn range_sum<T: Int>(lanes: Seq<T>, lo: int, hi: int) -> int
    decreases hi - lo,
{
    if hi <= lo {
        0
    } else {
        range_sum(lanes, lo, hi - 1) + lanes[hi - 1].value()
    }
}

/// The first lane of the block of `d` lanes in which lane `i` lies.
pub open spec fn block_start(i: int, d: int) -> int {
    (i / d) * d
}

/// Whether `after` is what a butterfly step at `distance` makes of `before`:
/// each lane is the wrapping sum of the lane and of the lane that an
/// exchange under the mask `distance` brings to its place.
pub open spec fn is_butterfly_step<T: Int>(before: Seq<T>, after: Seq<T>, distance: usize) -> bool {
    lanewise(LaneOp::WrappingAdd, before, general_reversed(before, distance), after)
}

proof fn lemma_range_sum_split<T: Int>(lanes: Seq<T>, lo: int, mid: int, hi: int)
    requires
        lo <= mid <= hi,
    ensures
        range_sum(lanes, lo, hi) == range_sum(lanes, lo, mid) + range_sum(lanes, mid, hi),
    decreases hi - mid,
{
    if hi > mid {
        lemma_range_sum_split(lanes, lo, mid, hi - 1);
    }
}

proof fn lemma_range_sum_agree<T: Int>(a: Seq<T>, b: Seq<T>, lo: int, hi: int)
    requires
        forall|i: int| lo <= i < hi ==> a[i] == b[i],
    ensures
        range_sum(a, lo, hi) == range_sum(b, lo, hi),
    decreases hi - lo,
{
    if hi > lo {
        lemma_range_sum_agree(a, b, lo, hi - 1);
    }
}

proof fn lemma_range_sum_all<T: Int>(lanes: Seq<T>)
    ensures
        range_sum(lanes, 0, lanes.len() as int) == sum_of(lanes),
    decreases lanes.len(),
{
    if lanes.len() > 0 {
        let rest = lanes.drop_last();
        lemma_range_sum_all(rest);
        lemma_range_sum_agree(lanes, rest, 0, rest.len() as int);
    }
}

/// Flipping bit `j` of an index adds `2^j` where the bit was clear.
proof fn lemma_xor_adds(i: usize, d: usize, j: usize, sum: usize)
    by (bit_vector)
    requires
        j < 64,
        d == 1usize << j,
        d > 0,
        (i >> j) & 1 == 0,
        sum == i + d,
    ensures
        i ^ d == sum,
{
}

/// Flipping bit `j` of an index subtracts `2^j` where the bit was set.
proof fn lemma_xor_subtracts(i: usize, d: usize, j: usize)
    by (bit_vector)
    requires
        j < 64,
        d == 1usize << j,
        d > 0,
        (i >> j) & 1 == 1,
    ensures
        i ^ d == i - d,
{
}

proof fn lemma_low_bit_is_parity(x: usize)
    by (bit_vector)
    ensures
        x & 1 == x % 2,
{
}

/// A power of two that fits `usize` is a shift of one bit, and the division
/// of an index by it is a shift of the index.
proof fn lemma_pow2_is_shift(e: nat, i: usize)
    requires
        pow2(e) <= usize::MAX,
    ensures
        e < 64,
        e < usize::BITS,
        1usize << (e as usize) == pow2(e),
        (i >> (e as usize)) == i as int / (pow2(e) as int),
{
    vstd::arithmetic::power2::lemma2_to64();
    vstd::arithmetic::power2::lemma2_to64_rest();
    if e >= usize::BITS {
        if usize::BITS == 32 {
            if e > 32 {
                vstd::arithmetic::power2::lemma_pow2_strictly_increases(32, e);
            }
        } else {
            if e > 64 {
                vstd::arithmetic::power2::lemma_pow2_strictly_increases(64, e);
            }
        }
        assert(false);
    }
    vstd::bits::lemma_usize_shl_is_mul(1, e as usize);
    vstd::bits::lemma_usize_shr_is_div(i, e as usize);
}

/// The lane that lies `d` away from lane `i` within its pair of blocks of
/// `d` lanes: where it lies, and where the blocks begin.
proof fn lemma_partner(i: int, d: int, n: int)
    requires
        d > 0,
        0 <= i < n,
        n % (2 * d) == 0,
    ensures
        (i / d) % 2 == 0 ==> {
            &&& i + d < n
            &&& block_start(i + d, d) == block_start(i, d) + d
            &&& block_start(i, 2 * d) == block_start(i, d)
        },
        (i / d) % 2 != 0 ==> {
            &&& 0 <= i - d
            &&& block_start(i - d, d) == block_start(i, d) - d
            &&& block_start(i, 2 * d) == block_start(i, d) - d
        },
        0 <= block_start(i, d) <= i < block_start(i, d) + d,
        block_start(i, 2 * d) + 2 * d <= n,
{
    let q = i / d;
    let r = i % d;
    let m = q / 2;
    let c = n / (2 * d);
    lemma_fundamental_div_mod(i, d);
    lemma_fundamental_div_mod(q, 2);
    lemma_fundamental_div_mod(n, 2 * d);
    assert(q >= 0) by {
        vstd::arithmetic::div_mod::lemma_div_pos_is_pos(i, d);
    }
    assert(i == d * q + r);
    assert(n == (2 * d) * c);
    assert(d * q == q * d) by (nonlinear_arith);
    if q % 2 == 0 {
        assert(q == 2 * m);
        assert(i == m * (2 * d) + r) by (nonlinear_arith)
            requires
                i == d * q + r,
                q == 2 * m,
        ;
        lemma_fundamental_div_mod_converse(i, 2 * d, m, r);
        assert(i + d == (q + 1) * d + r) by (nonlinear_arith)
            requires
                i == d * q + r,
        ;
        lemma_fundamental_div_mod_converse(i + d, d, q + 1, r);
        assert((q + 1) * d == q * d + d) by (nonlinear_arith);
        assert(m * (2 * d) == q * d) by (nonlinear_arith)
            requires
                q == 2 * m,
        ;
        assert(m < c) by (nonlinear_arith)
            requires
                i == m * (2 * d) + r,
                n == (2 * d) * c,
                i < n,
                0 <= r,
                d > 0,
        ;
        assert((m + 1) * (2 * d) <= n) by (nonlinear_arith)
            requires
                m < c,
                n == (2 * d) * c,
                d > 0,
        ;
        assert((m + 1) * (2 * d) == m * (2 * d) + 2 * d) by (nonlinear_arith);
    } else {
        assert(q == 2 * m + 1);
        assert(i == m * (2 * d) + (d + r)) by (nonlinear_arith)
            requires
                i == d * q + r,
                q == 2 * m + 1,
        ;
        lemma_fundamental_div_mod_converse(i, 2 * d, m, d + r);
        assert(i - d == (q - 1) * d + r) by (nonlinear_arith)
            requires
                i == d * q + r,
        ;
        lemma_fundamental_div_mod_converse(i - d, d, q - 1, r);
        assert((q - 1) * d == q * d - d) by (nonlinear_arith);
        assert(m * (2 * d) == q * d - d) by (nonlinear_arith)
            requires
                q == 2 * m + 1,
        ;
        assert(i - d >= 0) by (nonlinear_arith)
            requires
                i == d * q + r,
                q >= 1,
                r >= 0,
                d > 0,
        ;
        assert(m < c) by (nonlinear_arith)
            requires
                i == m * (2 * d) + (d + r),
                n == (2 * d) * c,
                i < n,
                0 <= r,
                d > 0,
        ;
        assert((m + 1) * (2 * d) <= n) by (nonlinear_arith)
            requires
                m < c,
                n == (2 * d) * c,
                d > 0,
        ;
        assert((m + 1) * (2 * d) == m * (2 * d) + 2 * d) by (nonlinear_arith);
    }
}

/// Whether `stages` are the vectors before and after each of `steps`
/// butterfly steps at the distances 1, 2, 4 and so on, on a vector of
/// `2^steps` lanes.
pub open spec fn is_butterfly<T: Int>(stages: Seq<Seq<T>>, steps: nat) -> bool {
    &&& pow2(steps) <= usize::MAX
    &&& stages.len() == steps + 1
    &&& stages[0].len() == pow2(steps)
    &&& forall|j: int|
        0 <= j < steps ==> is_butterfly_step(
            #[trigger] stages[j],
            stages[j + 1],
            pow2(j as nat) as usize,
        )
}

/// After `j` butterfly steps every lane holds the wrapped sum of the block of
/// `2^j` lanes in which it lies.
proof fn lemma_butterfly_blocks<T: Int>(stages: Seq<Seq<T>>, steps: nat, j: nat)
    requires
        is_butterfly(stages, steps),
        j <= steps,
    ensures
        stages[j as int].len() == pow2(steps),
        forall|i: int|
            0 <= i < pow2(steps) ==> (#[trigger] stages[j as int][i]).value() == wrapped(
                range_sum(
                    stages[0],
                    block_start(i, pow2(j) as int),
                    block_start(i, pow2(j) as int) + pow2(j),
                ),
                T::least(),
                T::greatest(),
            ),
    decreases j,
{
    let n = pow2(steps) as int;
    let min = T::least();
    let max = T::greatest();
    T::lemma_range();
    if j == 0 {
        assert(pow2(0) == 1) by {
            vstd::arithmetic::power2::lemma2_to64();
        }
        assert forall|i: int| 0 <= i < n implies (#[trigger] stages[0][i]).value() == wrapped(
            range_sum(stages[0], block_start(i, 1), block_start(i, 1) + 1),
            min,
            max,
        ) by {
            assert(block_start(i, 1) == i);
            assert(range_sum(stages[0], i, i) == 0);
            assert(range_sum(stages[0], i, i + 1) == stages[0][i].value());
            T::lemma_value(stages[0][i], stages[0][i]);
            lemma_wrapped_once(stages[0][i].value(), min, max);
        }
    } else {
        let k = (j - 1) as nat;
        lemma_butterfly_blocks(stages, steps, k);
        let before = stages[k as int];
        let after = stages[j as int];
        let d = pow2(k) as int;
        lemma_pow2_pos(k);
        lemma_pow2_unfold(j);
        assert(pow2(j) == 2 * d);
        // The number of lanes is a multiple of twice the distance.
        lemma_pow2_adds(j, (steps - j) as nat);
        lemma_mod_multiples_basic(pow2((steps - j) as nat) as int, 2 * d);
        assert(n == pow2((steps - j) as nat) * (2 * d)) by (nonlinear_arith)
            requires
                n == pow2(j) * pow2((steps - j) as nat),
                pow2(j) == 2 * d,
        ;
        assert(n % (2 * d) == 0);
        assert(d <= n) by {
            lemma_pow2_pos((steps - j) as nat);
            assert(d <= pow2((steps - j) as nat) * (2 * d)) by (nonlinear_arith)
                requires
                    pow2((steps - j) as nat) >= 1,
                    d > 0,
            ;
        }
        assert(is_butterfly_step(stages[k as int], stages[k as int + 1], pow2(k) as usize));
        let mirrored = general_reversed(before, d as usize);
        assert forall|i: int| 0 <= i < n implies (#[trigger] after[i]).value() == wrapped(
            range_sum(stages[0], block_start(i, 2 * d), block_start(i, 2 * d) + 2 * d),
            min,
            max,
        ) by {
            lemma_partner(i, d, n);
            lemma_pow2_is_shift(k, i as usize);
            lemma_low_bit_is_parity((i as usize) >> (k as usize));
            if (i / d) % 2 == 0 {
                lemma_xor_adds(i as usize, d as usize, k as usize, (i + d) as usize);
            } else {
                lemma_xor_subtracts(i as usize, d as usize, k as usize);
            }
            let p = xor_index(i, d as usize);
            assert(p == if (i / d) % 2 == 0 {
                i + d
            } else {
                i - d
            });
            assert(0 <= p < n);
            assert(mirrored[i] == before[p]);
            assert(LaneOp::WrappingAdd.gives(before[i], mirrored[i], after[i]));
            let a = range_sum(stages[0], block_start(i, d), block_start(i, d) + d);
            let b = range_sum(stages[0], block_start(p, d), block_start(p, d) + d);
            assert(before[i].value() == wrapped(a, min, max));
            assert(before[p].value() == wrapped(b, min, max));
            lemma_wrapped_sum(a, wrapped(b, min, max), min, max);
            lemma_wrapped_sum(b, a, min, max);
            assert(wrapped(wrapped(a, min, max) + wrapped(b, min, max), min, max) == wrapped(
                a + b,
                min,
                max,
            ));
            let start = block_start(i, 2 * d);
            lemma_range_sum_split(stages[0], start, start + d, start + 2 * d);
        }
    }
}

/// After the butterfly steps at the distances 1, 2, 4 and so on up to half
/// the number of lanes, every lane holds the sum of all the lanes of the
/// vector at the start, wrapped into the range of the lane type: what the
/// reduction of that vector to its sum gives.
pub proof fn lemma_butterfly_sum<T: Int>(stages: Seq<Seq<T>>, steps: nat)
    requires
        is_butterfly(stages, steps),
    ensures
        stages[steps as int].len() == stages[0].len(),
        forall|i: int|
            0 <= i < stages[0].len() ==> (#[trigger] stages[steps as int][i]).value() == wrapped(
                sum_of(stages[0]),
                T::least(),
                T::greatest(),
            ),
{
    let n = pow2(steps) as int;
    lemma_butterfly_blocks(stages, steps, steps);
    lemma_range_sum_all(stages[0]);
    lemma_pow2_pos(steps);
    assert forall|i: int| 0 <= i < n implies block_start(i, n) == 0 by {
        vstd::arithmetic::div_mod::lemma_basic_div(i, n);
    }
}

} // verus!
