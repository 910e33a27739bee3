//! Permutations of lanes that are fixed when the program is written: the
//! general swizzle by a table of indices, and reversal, rotation,
//! interleaving, splitting and concatenation, which are swizzles by tables
//! that the library computes.

use crate::vector::{lemma_simd_len, Simd};
use vstd::prelude::*;

verus! {

broadcast use lemma_simd_len;

/// A lane of one of two vectors.
#[derive(Copy, Clone, Debug, PartialEq, Eq, PartialOrd, Ord, Hash)]
pub enum Which {
    /// The lane with this index in the first vector.
    First(usize),
    /// The lane with this index in the second vector.
    Second(usize),
}

/// Whether every entry of `index` is the index of a lane of a vector of
/// `input_lanes` lanes.
pub open spec fn index_in_bounds(index: Seq<usize>, input_lanes: int) -> bool {
    forall|i: int| 0 <= i < index.len() ==> (#[trigger] index[i]) < input_lanes
}

/// Whether every entry of `index` is a lane of one of two vectors of
/// `input_lanes` lanes.
pub open spec fn index2_in_bounds(index: Seq<Which>, input_lanes: int) -> bool {
    forall|i: int|
        0 <= i < index.len() ==> match #[trigger] index[i] {
            Which::First(j) => j < input_lanes,
            Which::Second(j) => j < input_lanes,
        }
}

/// The lanes that a swizzle by `index` makes of `lanes`: output lane `i` is
/// input lane `index[i]`.
pub open spec fn swizzled<E>(lanes: Seq<E>, index: Seq<usize>) -> Seq<E> {
    Seq::new(index.len(), |i: int| lanes[index[i] as int])
}

/// The lanes that a swizzle by `index` makes of two vectors: output lane `i`
/// is lane `j` of `first` where `index[i]` is `First(j)`, and lane `j` of
/// `second` where it is `Second(j)`.
pub open spec fn swizzled2<E>(first: Seq<E>, second: Seq<E>, index: Seq<Which>) -> Seq<E> {
    Seq::new(
        index.len(),
        |i: int|
            match index[i] {
                Which::First(j) => first[j as int],
                Which::Second(j) => second[j as int],
            },
    )
}

/// The lanes in the opposite order.
pub open spec fn reversed<E>(lanes: Seq<E>) -> Seq<E> {
    Seq::new(lanes.len(), |i: int| lanes[lanes.len() - 1 - i])
}

/// The lanes moved `offset` places towards the front, those that leave the
/// front coming back at the end.
pub open spec fn rotated_left<E>(lanes: Seq<E>, offset: int) -> Seq<E> {
    Seq::new(lanes.len(), |i: int| lanes[(i + offset) % (lanes.len() as int)])
}

/// The lanes moved `offset` places towards the end, those that leave the end
/// coming back at the front.
pub open spec fn rotated_right<E>(lanes: Seq<E>, offset: int) -> Seq<E> {
    Seq::new(lanes.len(), |i: int| lanes[(i - offset) % (lanes.len() as int)])
}

/// The lanes of two vectors of equal length taken in turn: the first of `a`,
/// the first of `b`, the second of `a`, and so on.
pub open spec fn interleaved<E>(a: Seq<E>, b: Seq<E>) -> Seq<E> {
    Seq::new(
        2 * a.len(),
        |d: int|
            if d % 2 == 0 {
                a[d / 2]
            } else {
                b[d / 2]
            },
    )
}

/// Every other element of `lanes`, starting with the element at `start`.
pub open spec fn every_other<E>(lanes: Seq<E>, start: int) -> Seq<E> {
    Seq::new(lanes.len() / 2, |i: int| lanes[2 * i + start])
}

/// The index that exchanging lanes under the mask `swap_mask` gives to lane
/// `i`: `i` with the bits of the mask flipped.
pub open spec fn xor_index(i: int, swap_mask: usize) -> int {
    ((i as usize) ^ swap_mask) as int
}

/// Whether exchanging lanes under the mask `swap_mask` keeps every lane of a
/// vector of `lanes` lanes within the vector.
pub open spec fn xor_in_bounds(lanes: int, swap_mask: usize) -> bool {
    forall|i: int| 0 <= i < lanes ==> #[trigger] xor_index(i, swap_mask) < lanes
}

/// The lanes exchanged under the mask `swap_mask`: output lane `i` is input
/// lane `i ^ swap_mask`.
pub open spec fn general_reversed<E>(lanes: Seq<E>, swap_mask: usize) -> Seq<E> {
    Seq::new(lanes.len(), |i: int| lanes[xor_index(i, swap_mask)])
}

/// The vector whose lane `i` is lane `index[i]` of `vector`. Every entry of
/// `index` is less than the number of lanes of `vector`, which has at least
/// one lane.
pub fn swizzle_by<T: Copy, const INPUT_LANES: usize, const OUTPUT_LANES: usize>(
    vector: Simd<T, INPUT_LANES>,
    index: &[usize; OUTPUT_LANES],
) -> (r: Simd<T, OUTPUT_LANES>)
    requires
        INPUT_LANES > 0,
        index_in_bounds(index@, INPUT_LANES as int),
    ensures
        r@ == swizzled(vector@, index@),
{
    let mut lanes = [vector.lane(0);OUTPUT_LANES];
    let mut i: usize = 0;
    while i < OUTPUT_LANES
        invariant
            i <= OUTPUT_LANES,
            lanes@.len() == OUTPUT_LANES,
            index_in_bounds(index@, INPUT_LANES as int),
            forall|j: int| 0 <= j < i ==> lanes@[j] == vector@[index@[j] as int],
        decreases OUTPUT_LANES - i,
    {
        assert(index@[i as int] < INPUT_LANES);
        lanes[i] = vector.lane(index[i]);
        i += 1;
    }
    let r = Simd::from_array(lanes);
    assert(r@ =~= swizzled(vector@, index@));
    r
}

/// The vector whose lane `i` is the lane of `first` or of `second` that
/// `index[i]` names. Every entry of `index` names a lane that the vectors
/// have, and they have at least one.
pub fn swizzle2_by<T: Copy, const INPUT_LANES: usize, const OUTPUT_LANES: usize>(
    first: Simd<T, INPUT_LANES>,
    second: Simd<T, INPUT_LANES>,
    index: &[Which; OUTPUT_LANES],
) -> (r: Simd<T, OUTPUT_LANES>)
    requires
        INPUT_LANES > 0,
        index2_in_bounds(index@, INPUT_LANES as int),
    ensures
        r@ == swizzled2(first@, second@, index@),
{
    let mut lanes = [first.lane(0);OUTPUT_LANES];
    let mut i: usize = 0;
    while i < OUTPUT_LANES
        invariant
            i <= OUTPUT_LANES,
            lanes@.len() == OUTPUT_LANES,
            index2_in_bounds(index@, INPUT_LANES as int),
            forall|j: int| 0 <= j < i ==> lanes@[j] == swizzled2(first@, second@, index@)[j],
        decreases OUTPUT_LANES - i,
    {
        assert(match index@[i as int] {
            Which::First(j) => j < INPUT_LANES,
            Which::Second(j) => j < INPUT_LANES,
        });
        lanes[i] = match index[i] {
            Which::First(j) => first.lane(j),
            Which::Second(j) => second.lane(j),
        };
        i += 1;
    }
    let r = Simd::from_array(lanes);
    assert(r@ =~= swizzled2(first@, second@, index@));
    r
}

/// Whether every entry of `index` is less than `input_lanes`.
pub fn index_is_in_bounds<const OUTPUT_LANES: usize>(
    index: &[usize; OUTPUT_LANES],
    input_lanes: usize,
) -> (r: bool)
    ensures
        r == index_in_bounds(index@, input_lanes as int),
{
    let mut i: usize = 0;
    while i < OUTPUT_LANES
        invariant
            i <= OUTPUT_LANES,
            forall|j: int| 0 <= j < i ==> (#[trigger] index@[j]) < input_lanes,
        decreases OUTPUT_LANES - i,
    {
        if index[i] >= input_lanes {
            return false;
        }
        i += 1;
    }
    true
}

/// Whether every entry of `index` names a lane of one of two vectors of
/// `input_lanes` lanes.
pub fn index2_is_in_bounds<const OUTPUT_LANES: usize>(
    index: &[Which; OUTPUT_LANES],
    input_lanes: usize,
) -> (r: bool)
    ensures
        r == index2_in_bounds(index@, input_lanes as int),
{
    let mut i: usize = 0;
    while i < OUTPUT_LANES
        invariant
            i <= OUTPUT_LANES,
            forall|k: int|
                0 <= k < i ==> match #[trigger] index@[k] {
                    Which::First(j) => j < input_lanes,
                    Which::Second(j) => j < input_lanes,
                },
        decreases OUTPUT_LANES - i,
    {
        let lane = match index[i] {
            Which::First(j) => j,
            Which::Second(j) => j,
        };
        if lane >= input_lanes {
            return false;
        }
        i += 1;
    }
    true
}

/// A swizzle of one vector: a table that says, for each lane of the output,
/// which lane of the input it is.
///
/// Whoever implements the trait proves that the table stays within the
/// input, so that a table that does not is refused where it is defined.
pub trait Swizzle<const INPUT_LANES: usize, const OUTPUT_LANES: usize> {
    /// Map from the lanes of the input vector to the output vector.
    const INDEX: [usize; OUTPUT_LANES];

    /// Every entry of the table is the index of a lane of the input.
    proof fn lemma_index_in_bounds()
        ensures
            index_in_bounds(Self::INDEX@, INPUT_LANES as int),
    ;

    /// The vector whose lane `i` is lane `INDEX[i]` of `vector`.
    fn swizzle<T: Copy>(vector: Simd<T, INPUT_LANES>) -> (r: Simd<T, OUTPUT_LANES>)
        requires
            INPUT_LANES > 0,
        ensures
            r@ == swizzled(vector@, Self::INDEX@),
    {
        proof {
            Self::lemma_index_in_bounds();
        }
        let index = Self::INDEX;
        swizzle_by(vector, &index)
    }
}

/// A swizzle of two vectors: a table that says, for each lane of the output,
/// which lane of which of the two inputs it is.
///
/// Whoever implements the trait proves that the table stays within the
/// inputs, so that a table that does not is refused where it is defined.
pub trait Swizzle2<const INPUT_LANES: usize, const OUTPUT_LANES: usize> {
    /// Map from the lanes of the input vectors to the output vector.
    const INDEX: [Which; OUTPUT_LANES];

    /// Every entry of the table names a lane of one of the inputs.
    proof fn lemma_index_in_bounds()
        ensures
            index2_in_bounds(Self::INDEX@, INPUT_LANES as int),
    ;

    /// The vector whose lane `i` is the lane of `first` or of `second` that
    /// `INDEX[i]` names.
    fn swizzle2<T: Copy>(first: Simd<T, INPUT_LANES>, second: Simd<T, INPUT_LANES>) -> (r: Simd<
        T,
        OUTPUT_LANES,
    >)
        requires
            INPUT_LANES > 0,
        ensures
            r@ == swizzled2(first@, second@, Self::INDEX@),
    {
        proof {
            Self::lemma_index_in_bounds();
        }
        let index = Self::INDEX;
        swizzle2_by(first, second, &index)
    }
}

/// The table of the swizzle that reverses the lanes.
fn reverse_index<const LANES: usize>() -> (index: [usize; LANES])
    ensures
        forall|i: int| 0 <= i < LANES ==> #[trigger] index@[i] == LANES - 1 - i,
{
    let mut index = [0usize;LANES];
    let mut i: usize = 0;
    while i < LANES
        invariant
            i <= LANES,
            index@.len() == LANES,
            forall|j: int| 0 <= j < i ==> #[trigger] index@[j] == LANES - 1 - j,
        decreases LANES - i,
    {
        index[i] = LANES - i - 1;
        i += 1;
    }
    index
}

/// Adding `shift`, which is less than `lanes`, to an index and taking the
/// remainder by `lanes` is one conditional subtraction.
proof fn lemma_rotate_step(i: int, shift: int, lanes: int)
    requires
        0 <= i < lanes,
        0 <= shift <= lanes,
    ensures
        (i + shift) % lanes == if shift >= lanes - i {
            shift - (lanes - i)
        } else {
            i + shift
        },
{
    if shift >= lanes - i {
        vstd::arithmetic::div_mod::lemma_mod_sub_multiples_vanish(i + shift, lanes);
        vstd::arithmetic::div_mod::lemma_small_mod((i + shift - lanes) as nat, lanes as nat);
    } else {
        vstd::arithmetic::div_mod::lemma_small_mod((i + shift) as nat, lanes as nat);
    }
}

/// The table of the swizzle whose output lane `i` is input lane
/// `(i + shift) % LANES`, for a shift of at most `LANES`.
fn rotate_index<const LANES: usize>(shift: usize) -> (index: [usize; LANES])
    requires
        shift <= LANES,
    ensures
        forall|i: int| 0 <= i < LANES ==> #[trigger] index@[i] == (i + shift) % (LANES as int),
{
    let mut index = [0usize;LANES];
    let mut i: usize = 0;
    while i < LANES
        invariant
            i <= LANES,
            shift <= LANES,
            index@.len() == LANES,
            forall|j: int| 0 <= j < i ==> #[trigger] index@[j] == (j + shift) % (LANES as int),
        decreases LANES - i,
    {
        proof {
            lemma_rotate_step(i as int, shift as int, LANES as int);
        }
        index[i] = if shift >= LANES - i {
            shift - (LANES - i)
        } else {
            i + shift
        };
        i += 1;
    }
    index
}

/// The table of one half of an interleaving, the second half where `high`
/// holds: the two inputs are taken as one vector of twice the length, and
/// position `d` of the interleaving is lane `d / 2` of the first input where
/// `d` is even and of the second where it is odd.
fn interleave_index<const LANES: usize>(high: bool) -> (index: [Which; LANES])
    ensures
        forall|i: int|
            0 <= i < LANES ==> #[trigger] index@[i] == {
                let d = if high {
                    i + LANES
                } else {
                    i
                };
                if d % 2 == 0 {
                    Which::First((d / 2) as usize)
                } else {
                    Which::Second((d / 2) as usize)
                }
            },
{
    let mut index = [Which::First(0);LANES];
    let mut i: usize = 0;
    while i < LANES
        invariant
            i <= LANES,
            index@.len() == LANES,
            forall|j: int|
                0 <= j < i ==> #[trigger] index@[j] == {
                    let d = if high {
                        j + LANES
                    } else {
                        j
                    };
                    if d % 2 == 0 {
                        Which::First((d / 2) as usize)
                    } else {
                        Which::Second((d / 2) as usize)
                    }
                },
        decreases LANES - i,
    {
        // The half and the parity of the position, found without forming a
        // sum that might not fit.
        let carry = if high {
            i % 2 + LANES % 2
        } else {
            i % 2
        };
        let half = if high {
            i / 2 + LANES / 2 + carry / 2
        } else {
            i / 2
        };
        index[i] = if carry % 2 == 0 {
            Which::First(half)
        } else {
            Which::Second(half)
        };
        i += 1;
    }
    index
}

/// The table of one half of a deinterleaving, the odd positions where
/// `second` holds: the two inputs are taken as one vector of twice the
/// length, of which every other lane is taken.
fn deinterleave_index<const LANES: usize>(second: bool) -> (index: [Which; LANES])
    ensures
        forall|i: int|
            0 <= i < LANES ==> #[trigger] index@[i] == {
                let source = 2 * i + if second {
                    1int
                } else {
                    0int
                };
                if source < LANES {
                    Which::First(source as usize)
                } else {
                    Which::Second((source - LANES) as usize)
                }
            },
{
    let mut index = [Which::First(0);LANES];
    let mut i: usize = 0;
    let start: usize = if second {
        1
    } else {
        0
    };
    while i < LANES
        invariant
            i <= LANES,
            index@.len() == LANES,
            start == if second {
                1int
            } else {
                0int
            },
            forall|j: int|
                0 <= j < i ==> #[trigger] index@[j] == {
                    let source = 2 * j + start;
                    if source < LANES {
                        Which::First(source as usize)
                    } else {
                        Which::Second((source - LANES) as usize)
                    }
                },
        decreases LANES - i,
    {
        // Whether `2 * i + start` is less than `LANES`, and the lane it
        // names, found without forming a product that might not fit.
        index[i] = if i < LANES - i && start < LANES - i - i {
            Which::First(i + i + start)
        } else {
            Which::Second(i - (LANES - i - start))
        };
        i += 1;
    }
    index
}

/// The table of the swizzle that takes `LEN` lanes in a row, starting at
/// lane `offset`.
fn slice_index<const LEN: usize>(offset: usize) -> (index: [usize; LEN])
    requires
        offset + LEN <= usize::MAX,
    ensures
        forall|i: int| 0 <= i < LEN ==> #[trigger] index@[i] == i + offset,
{
    let mut index = [0usize;LEN];
    let mut i: usize = 0;
    while i < LEN
        invariant
            i <= LEN,
            offset + LEN <= usize::MAX,
            index@.len() == LEN,
            forall|j: int| 0 <= j < i ==> #[trigger] index@[j] == j + offset,
        decreases LEN - i,
    {
        index[i] = i + offset;
        i += 1;
    }
    index
}

/// The table of the swizzle that puts two vectors of `lanes` lanes one after
/// the other.
fn concat_index<const DOUBLE_LANES: usize>(lanes: usize) -> (index: [Which; DOUBLE_LANES])
    requires
        lanes + lanes == DOUBLE_LANES,
    ensures
        forall|i: int|
            0 <= i < DOUBLE_LANES ==> #[trigger] index@[i] == if i < lanes {
                Which::First(i as usize)
            } else {
                Which::Second((i - lanes) as usize)
            },
{
    let mut index = [Which::First(0);DOUBLE_LANES];
    let mut i: usize = 0;
    while i < lanes
        invariant
            i <= lanes,
            lanes + lanes == DOUBLE_LANES,
            index@.len() == DOUBLE_LANES,
            forall|j: int| 0 <= j < i ==> #[trigger] index@[j] == Which::First(j as usize),
            forall|j: int|
                lanes <= j < lanes + i ==> #[trigger] index@[j] == Which::Second(
                    (j - lanes) as usize,
                ),
        decreases lanes - i,
    {
        index[i] = Which::First(i);
        index[i + lanes] = Which::Second(i);
        i += 1;
    }
    index
}

/// The table of the swizzle that exchanges lanes under the mask `swap_mask`.
fn general_reverse_index<const LANES: usize>(swap_mask: usize) -> (index: [usize; LANES])
    ensures
        forall|i: int| 0 <= i < LANES ==> #[trigger] index@[i] == xor_index(i, swap_mask),
{
    let mut index = [0usize;LANES];
    let mut i: usize = 0;
    while i < LANES
        invariant
            i <= LANES,
            index@.len() == LANES,
            forall|j: int| 0 <= j < i ==> #[trigger] index@[j] == xor_index(j, swap_mask),
        decreases LANES - i,
    {
        index[i] = i ^ swap_mask;
        i += 1;
    }
    index
}

/// Whether exchanging lanes under the mask `swap_mask` keeps every lane of a
/// vector of `lanes` lanes within the vector.
pub fn xor_is_in_bounds(lanes: usize, swap_mask: usize) -> (r: bool)
    ensures
        r == xor_in_bounds(lanes as int, swap_mask),
{
    let mut i: usize = 0;
    while i < lanes
        invariant
            i <= lanes,
            forall|j: int| 0 <= j < i ==> #[trigger] xor_index(j, swap_mask) < lanes,
        decreases lanes - i,
    {
        if i ^ swap_mask >= lanes {
            assert(!(xor_index(i as int, swap_mask) < lanes));
            return false;
        }
        i += 1;
    }
    true
}

impl<T: Copy, const LANES: usize> Simd<T, LANES> {
    /// The vector with the lanes in the opposite order.
    pub fn reverse(self) -> (r: Self)
        ensures
            r@ == reversed(self@),
    {
        if LANES == 0 {
            assert(self@ =~= reversed(self@));
            return self;
        }
        let index = reverse_index::<LANES>();
        let r = swizzle_by(self, &index);
        assert(r@ =~= reversed(self@));
        r
    }

    /// The vector with the lanes moved `OFFSET` places towards the front:
    /// the first `OFFSET % LANES` lanes go to the end, and the lane that was
    /// at `OFFSET % LANES` becomes the first.
    pub fn rotate_lanes_left<const OFFSET: usize>(self) -> (r: Self)
        ensures
            r@ == rotated_left(self@, OFFSET as int),
    {
        if LANES == 0 {
            assert(self@ =~= rotated_left(self@, OFFSET as int));
            return self;
        }
        let offset = OFFSET % LANES;
        let index = rotate_index::<LANES>(offset);
        let r = swizzle_by(self, &index);
        proof {
            assert forall|i: int| 0 <= i < LANES implies r@[i] == rotated_left(
                self@,
                OFFSET as int,
            )[i] by {
                vstd::arithmetic::div_mod::lemma_add_mod_noop_right(
                    i,
                    OFFSET as int,
                    LANES as int,
                );
            }
            assert(r@ =~= rotated_left(self@, OFFSET as int));
        }
        r
    }

    /// The vector with the lanes moved `OFFSET` places towards the end: the
    /// last `OFFSET % LANES` lanes go to the front.
    pub fn rotate_lanes_right<const OFFSET: usize>(self) -> (r: Self)
        ensures
            r@ == rotated_right(self@, OFFSET as int),
    {
        if LANES == 0 {
            assert(self@ =~= rotated_right(self@, OFFSET as int));
            return self;
        }
        let offset = LANES - OFFSET % LANES;
        let index = rotate_index::<LANES>(offset);
        let r = swizzle_by(self, &index);
        proof {
            assert forall|i: int| 0 <= i < LANES implies r@[i] == rotated_right(
                self@,
                OFFSET as int,
            )[i] by {
                let n = LANES as int;
                vstd::arithmetic::div_mod::lemma_sub_mod_noop_right(i, OFFSET as int, n);
                vstd::arithmetic::div_mod::lemma_mod_add_multiples_vanish(
                    i - (OFFSET as int % n),
                    n,
                );
                assert(i + offset == n + (i - (OFFSET as int % n)));
            }
            assert(r@ =~= rotated_right(self@, OFFSET as int));
        }
        r
    }

    /// The two halves of the interleaving of `self` and `other`: the lanes of
    /// the two taken in turn, the first `LANES` of them in the first result
    /// and the rest in the second.
    pub fn interleave(self, other: Self) -> (r: (Self, Self))
        ensures
            r.0@ == interleaved(self@, other@).take(LANES as int),
            r.1@ == interleaved(self@, other@).skip(LANES as int),
    {
        if LANES == 0 {
            assert(self@ =~= interleaved(self@, other@).take(LANES as int));
            assert(other@ =~= interleaved(self@, other@).skip(LANES as int));
            return (self, other);
        }
        let low = interleave_index::<LANES>(false);
        let high = interleave_index::<LANES>(true);
        let r = (swizzle2_by(self, other, &low), swizzle2_by(self, other, &high));
        assert(r.0@ =~= interleaved(self@, other@).take(LANES as int));
        assert(r.1@ =~= interleaved(self@, other@).skip(LANES as int));
        r
    }

    /// The two halves of the deinterleaving of `self` and `other`: of the
    /// lanes of `self` followed by those of `other`, those at even positions
    /// in the first result and those at odd positions in the second.
    pub fn deinterleave(self, other: Self) -> (r: (Self, Self))
        ensures
            r.0@ == every_other(self@ + other@, 0),
            r.1@ == every_other(self@ + other@, 1),
    {
        if LANES == 0 {
            assert(self@ =~= every_other(self@ + other@, 0));
            assert(other@ =~= every_other(self@ + other@, 1));
            return (self, other);
        }
        let even = deinterleave_index::<LANES>(false);
        let odd = deinterleave_index::<LANES>(true);
        let r = (swizzle2_by(self, other, &even), swizzle2_by(self, other, &odd));
        assert(r.0@ =~= every_other(self@ + other@, 0));
        assert(r.1@ =~= every_other(self@ + other@, 1));
        r
    }

    /// The two halves of the vector: the first `HALF_LANES` lanes and the
    /// rest. The vector has twice `HALF_LANES` lanes, and at least two.
    pub fn split_to<const HALF_LANES: usize>(self) -> (r: [Simd<T, HALF_LANES>; 2])
        requires
            HALF_LANES * 2 == LANES,
            LANES > 0,
        ensures
            r@[0]@ == self@.take(HALF_LANES as int),
            r@[1]@ == self@.skip(HALF_LANES as int),
    {
        let low = slice_index::<HALF_LANES>(0);
        let high = slice_index::<HALF_LANES>(HALF_LANES);
        let r = [swizzle_by(self, &low), swizzle_by(self, &high)];
        assert(r@[0]@ =~= self@.take(HALF_LANES as int));
        assert(r@[1]@ =~= self@.skip(HALF_LANES as int));
        r
    }

    /// The lanes of `self` followed by those of `other`. The result has twice
    /// the lanes of each, which have at least one.
    pub fn concat_to<const DOUBLE_LANES: usize>(self, other: Self) -> (r: Simd<T, DOUBLE_LANES>)
        requires
            LANES * 2 == DOUBLE_LANES,
            LANES > 0,
        ensures
            r@ == self@ + other@,
    {
        let index = concat_index::<DOUBLE_LANES>(LANES);
        let r = swizzle2_by(self, other, &index);
        assert(r@ =~= self@ + other@);
        r
    }

    /// The vector in which each lane `i` has changed places with lane
    /// `i ^ SWAP_MASK`. The mask keeps every lane within the vector.
    ///
    /// With a mask of `1` adjacent lanes change places; with a power of two,
    /// blocks of that many lanes; with one less than a power of two, the
    /// lanes of each group of that power are reversed.
    pub fn general_reverse<const SWAP_MASK: usize>(self) -> (r: Self)
        requires
            xor_in_bounds(LANES as int, SWAP_MASK),
        ensures
            r@ == general_reversed(self@, SWAP_MASK),
    {
        if LANES == 0 {
            assert(self@ =~= general_reversed(self@, SWAP_MASK));
            return self;
        }
        let index = general_reverse_index::<LANES>(SWAP_MASK);
        assert forall|i: int| 0 <= i < LANES implies (#[trigger] index@[i]) < LANES by {
            assert(xor_index(i, SWAP_MASK) < LANES);
        }
        let r = swizzle_by(self, &index);
        assert(r@ =~= general_reversed(self@, SWAP_MASK));
        r
    }
}

/// Deinterleaving the two halves of an interleaving gives back the two
/// vectors that were interleaved.
pub proof fn lemma_deinterleave_interleave<E>(a: Seq<E>, b: Seq<E>)
    requires
        a.len() == b.len(),
    ensures
        every_other(
            interleaved(a, b).take(a.len() as int) + interleaved(a, b).skip(a.len() as int),
            0,
        ) == a,
        every_other(
            interleaved(a, b).take(a.len() as int) + interleaved(a, b).skip(a.len() as int),
            1,
        ) == b,
{
    let whole = interleaved(a, b);
    let n = a.len() as int;
    assert(whole.take(n) + whole.skip(n) =~= whole);
    assert(every_other(whole, 0) =~= a);
    assert(every_other(whole, 1) =~= b);
}

/// Interleaving the two halves of a deinterleaving gives back the two
/// vectors that were deinterleaved.
pub proof fn lemma_interleave_deinterleave<E>(a: Seq<E>, b: Seq<E>)
    requires
        a.len() == b.len(),
    ensures
        interleaved(every_other(a + b, 0), every_other(a + b, 1)).take(a.len() as int) == a,
        interleaved(every_other(a + b, 0), every_other(a + b, 1)).skip(a.len() as int) == b,
{
    let n = a.len() as int;
    let again = interleaved(every_other(a + b, 0), every_other(a + b, 1));
    assert(again =~= a + b);
    assert((a + b).take(n) =~= a);
    assert((a + b).skip(n) =~= b);
}

/// Splitting the concatenation of two vectors of equal length gives back the
/// two vectors, and concatenating the halves of a vector gives back the
/// vector.
pub proof fn lemma_split_concat<E>(a: Seq<E>, b: Seq<E>, whole: Seq<E>, half: int)
    requires
        a.len() == b.len(),
        0 <= half <= whole.len(),
    ensures
        (a + b).take(a.len() as int) == a,
        (a + b).skip(a.len() as int) == b,
        whole.take(half) + whole.skip(half) == whole,
{
    assert((a + b).take(a.len() as int) =~= a);
    assert((a + b).skip(a.len() as int) =~= b);
    assert(whole.take(half) + whole.skip(half) =~= whole);
}

proof fn lemma_xor_below_power_of_two(i: usize, mask: usize, lanes: usize, low: usize)
    by (bit_vector)
    requires
        lanes > 0,
        low == lanes - 1,
        lanes & low == 0,
        i < lanes,
        mask < lanes,
    ensures
        i ^ mask < lanes,
{
}

/// Where the number of lanes is a power of two, every mask that is less than
/// it keeps every lane within the vector.
pub proof fn lemma_xor_in_bounds(lanes: usize, swap_mask: usize)
    requires
        lanes > 0,
        lanes & ((lanes - 1) as usize) == 0,
        swap_mask < lanes,
    ensures
        xor_in_bounds(lanes as int, swap_mask),
{
    assert forall|i: int| 0 <= i < lanes implies #[trigger] xor_index(i, swap_mask) < lanes by {
        lemma_xor_below_power_of_two(i as usize, swap_mask, lanes, (lanes - 1) as usize);
    }
}

proof fn lemma_xor_twice(i: usize, mask: usize)
    by (bit_vector)
    ensures
        (i ^ mask) ^ mask == i,
{
}

/// Exchanging lanes twice under the same mask gives back the vector.
pub proof fn lemma_general_reverse_involution<E>(lanes: Seq<E>, swap_mask: usize)
    requires
        lanes.len() <= usize::MAX,
        xor_in_bounds(lanes.len() as int, swap_mask),
    ensures
        general_reversed(general_reversed(lanes, swap_mask), swap_mask) == lanes,
{
    let once = general_reversed(lanes, swap_mask);
    assert forall|i: int| 0 <= i < lanes.len() implies general_reversed(once, swap_mask)[i]
        == lanes[i] by {
        assert(xor_index(i, swap_mask) < lanes.len());
        lemma_xor_twice(i as usize, swap_mask);
    }
    assert(general_reversed(once, swap_mask) =~= lanes);
}

} // verus!
