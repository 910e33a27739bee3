//! Choosing, lane by lane, between the lanes of two operands.

use crate::element::SimdElement;
use crate::lane_count::MAX_LANES;
use crate::masks::to_bitmask::{
    bit_is_set, fix_endianness, lanes_of_bitmask, native_position, target_is_big_endian, test_bit,
};
use crate::masks::{lemma_mask_len, Mask};
use crate::vector::{lemma_simd_len, Simd};
use vstd::prelude::*;

verus! {

broadcast use {lemma_simd_len, lemma_mask_len};

/// The lanes chosen by `mask`: lane `i` of `true_values` where lane `i` of the
/// mask is set, lane `i` of `false_values` where it is not.
pub open spec fn selected<E>(mask: Seq<bool>, true_values: Seq<E>, false_values: Seq<E>) -> Seq<E> {
    Seq::new(
        true_values.len(),
        |i: int|
            if mask[i] {
                true_values[i]
            } else {
                false_values[i]
            },
    )
}

/// A selector: a value that chooses, for each lane, between two operands of
/// type `T`.
pub trait Select<T>: Sized {
    /// Whether this selector can choose between operands of type `T`.
    spec fn select_req(self) -> bool;

    /// For each lane, the lane of `true_values` where the selector is set and
    /// the lane of `false_values` where it is not.
    fn select(self, true_values: T, false_values: T) -> T
        requires
            self.select_req(),
    ;
}

impl<T: Copy, U: SimdElement, const N: usize> Select<Simd<T, N>> for Mask<U, N> {
    open spec fn select_req(self) -> bool {
        true
    }

    fn select(self, true_values: Simd<T, N>, false_values: Simd<T, N>) -> (r: Simd<T, N>)
        ensures
            r@ == selected(self@, true_values@, false_values@),
    {
        let mut lanes = false_values.to_array();
        let mut i: usize = 0;
        while i < N
            invariant
                i <= N,
                lanes@.len() == N,
                forall|j: int| 0 <= j < i ==> lanes@[j] == selected(self@, true_values@, false_values@)[j],
                forall|j: int| i <= j < N ==> lanes@[j] == false_values@[j],
            decreases N - i,
        {
            if self.test(i) {
                lanes[i] = true_values.lane(i);
            }
            i += 1;
        }
        let r = Simd::from_array(lanes);
        assert(r@ =~= selected(self@, true_values@, false_values@));
        r
    }
}

impl<T: SimdElement, U: SimdElement, const N: usize> Select<Mask<T, N>> for Mask<U, N> {
    open spec fn select_req(self) -> bool {
        true
    }

    fn select(self, true_values: Mask<T, N>, false_values: Mask<T, N>) -> (r: Mask<T, N>)
        ensures
            r@ == selected(self@, true_values@, false_values@),
    {
        let ghost chosen = selected(self@, true_values@, false_values@);
        let lanes: Simd<T::Mask, N> = self.select(true_values.to_simd(), false_values.to_simd());
        let r = Mask::from_simd_unchecked(lanes);
        assert(r@ =~= chosen);
        r
    }
}

/// Chooses between the lanes of two vectors of `M` lanes by a bitmask in the
/// order of the target: lane `i` goes by bit `i` where `msb_first` does not
/// hold, and by bit `M - 1 - i` where it does.
fn native_select_bitmask<T: Copy, const M: usize>(
    bitmask: u64,
    true_values: Simd<T, M>,
    false_values: Simd<T, M>,
    msb_first: bool,
) -> (r: Simd<T, M>)
    requires
        M <= 64,
    ensures
        r@ == Seq::new(
            M as nat,
            |i: int|
                if bit_is_set(bitmask, native_position(i, M as int, msb_first)) {
                    true_values@[i]
                } else {
                    false_values@[i]
                },
        ),
{
    let mut lanes = false_values.to_array();
    let mut i: usize = 0;
    while i < M
        invariant
            i <= M,
            M <= 64,
            lanes@.len() == M,
            forall|j: int|
                0 <= j < i ==> lanes@[j] == if bit_is_set(
                    bitmask,
                    native_position(j, M as int, msb_first),
                ) {
                    true_values@[j]
                } else {
                    false_values@[j]
                },
            forall|j: int| i <= j < M ==> lanes@[j] == false_values@[j],
        decreases M - i,
    {
        let position = if msb_first {
            M - 1 - i
        } else {
            i
        };
        if test_bit(bitmask, position) {
            lanes[i] = true_values.lane(i);
        }
        i += 1;
    }
    let r = Simd::from_array(lanes);
    assert(r@ =~= Seq::new(
        M as nat,
        |i: int|
            if bit_is_set(bitmask, native_position(i, M as int, msb_first)) {
                true_values@[i]
            } else {
                false_values@[i]
            },
    ));
    r
}

/// Chooses between the lanes of two vectors by a bitmask, through vectors of
/// `M` lanes, where `M` is the width of an integer: the bitmask is brought to
/// the order of the target, the operands are widened to `M` lanes, the choice
/// is made there, and the result is cut back to `N` lanes.
fn select_impl<T: Copy, const M: usize, const N: usize>(
    bitmask: u64,
    true_values: Simd<T, N>,
    false_values: Simd<T, N>,
) -> (r: Simd<T, N>)
    requires
        1 <= N <= M,
        M <= 64,
    ensures
        r@ == selected(lanes_of_bitmask(bitmask, N as nat), true_values@, false_values@),
{
    let msb_first = target_is_big_endian();
    let native = fix_endianness(bitmask, M, msb_first);
    let default = true_values.lane(0);
    let wide_true = true_values.resize::<M>(default);
    let wide_false = false_values.resize::<M>(default);
    let chosen = native_select_bitmask(native, wide_true, wide_false, msb_first);
    let r = chosen.resize::<N>(default);
    proof {
        assert forall|i: int| 0 <= i < N implies r@[i] == selected(
            lanes_of_bitmask(bitmask, N as nat),
            true_values@,
            false_values@,
        )[i] by {
            assert(r@[i] == chosen@[i]);
            assert(bit_is_set(native, native_position(i, M as int, msb_first)) == bit_is_set(
                bitmask,
                i,
            ));
        }
        assert(r@ =~= selected(lanes_of_bitmask(bitmask, N as nat), true_values@, false_values@));
    }
    r
}

impl<T: Copy, const N: usize> Select<Simd<T, N>> for u64 {
    /// A bitmask has 64 bits, so it chooses between vectors of at most 64
    /// lanes.
    open spec fn select_req(self) -> bool {
        N <= MAX_LANES
    }

    /// Bit `i` of the bitmask, counted from the least significant, chooses
    /// lane `i`.
    fn select(self, true_values: Simd<T, N>, false_values: Simd<T, N>) -> (r: Simd<T, N>)
        ensures
            r@ == selected(lanes_of_bitmask(self, N as nat), true_values@, false_values@),
    {
        if N == 0 {
            assert(true_values@ =~= selected(
                lanes_of_bitmask(self, N as nat),
                true_values@,
                false_values@,
            ));
            true_values
        } else if N <= 8 {
            select_impl::<T, 8, N>(self, true_values, false_values)
        } else if N <= 16 {
            select_impl::<T, 16, N>(self, true_values, false_values)
        } else if N <= 32 {
            select_impl::<T, 32, N>(self, true_values, false_values)
        } else {
            select_impl::<T, 64, N>(self, true_values, false_values)
        }
    }
}

impl<T: SimdElement, const N: usize> Select<Mask<T, N>> for u64 {
    /// A bitmask has 64 bits, so it chooses between masks of at most 64
    /// lanes.
    open spec fn select_req(self) -> bool {
        N <= MAX_LANES
    }

    /// Bit `i` of the bitmask, counted from the least significant, chooses
    /// lane `i`.
    fn select(self, true_values: Mask<T, N>, false_values: Mask<T, N>) -> (r: Mask<T, N>)
        ensures
            r@ == selected(lanes_of_bitmask(self, N as nat), true_values@, false_values@),
    {
        let ghost chosen = selected(lanes_of_bitmask(self, N as nat), true_values@, false_values@);
        let lanes: Simd<T::Mask, N> = self.select(true_values.to_simd(), false_values.to_simd());
        let r = Mask::from_simd_unchecked(lanes);
        assert(r@ =~= chosen);
        r
    }
}

/// A selector that is set in every lane chooses the first operand, one that
/// is set in no lane chooses the second, and between an operand and itself
/// every selector chooses that operand.
pub proof fn lemma_select_identities<E>(mask: Seq<bool>, a: Seq<E>, b: Seq<E>)
    requires
        mask.len() == a.len(),
        a.len() == b.len(),
    ensures
        selected(Seq::new(a.len(), |i: int| true), a, b) == a,
        selected(Seq::new(a.len(), |i: int| false), a, b) == b,
        selected(mask, a, a) == a,
{
    assert(selected(Seq::new(a.len(), |i: int| true), a, b) =~= a);
    assert(selected(Seq::new(a.len(), |i: int| false), a, b) =~= b);
    assert(selected(mask, a, a) =~= a);
}

} // verus!
