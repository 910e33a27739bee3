//! Masks: vectors of booleans that say, lane by lane, whether the lane takes
//! part in an operation.
//!
//! A mask keeps its lanes as integers of the width that goes with its element
//! type, `-1` (all bits set) for `true` and `0` for `false`, and never holds
//! any other value. Its meaning is the sequence of booleans that
//! [`Mask::view`] gives.

use crate::element::{Int, MaskElement, SimdElement};
use crate::lane_count::MAX_LANES;
use crate::masks::to_bitmask::{
    bit_is_set, bitmask_of, lanes_of_bitmask, lemma_bitmask_of, to_bitmask_impl,
};
use crate::select::Select;
use crate::vector::{lemma_simd_ext_equal, lemma_simd_len, Simd};
use vstd::prelude::*;
use vstd::std_specs::cmp::PartialEqSpecImpl;
use vstd::std_specs::convert::FromSpecImpl;

pub mod bitwise;
pub mod to_bitmask;

verus! {

broadcast use lemma_simd_len;

/// Whether `v` is one of the two integers that a mask lane may hold.
pub open spec fn is_mask_lane(v: int) -> bool {
    v == 0 || v == -1
}

/// The integer that a mask lane holds for `value`.
pub open spec fn mask_lane_of(value: bool) -> int {
    if value {
        -1
    } else {
        0
    }
}

/// Whether `first` is the index of the first lane that is set: the least
/// index of a lane that is set, or nothing where no lane is set.
pub open spec fn is_first_set(lanes: Seq<bool>, first: Option<usize>) -> bool {
    match first {
        Some(i) => i < lanes.len() && lanes[i as int] && forall|j: int| 0 <= j < i ==> !lanes[j],
        None => forall|j: int| 0 <= j < lanes.len() ==> !lanes[j],
    }
}

/// The first lane that is set is determined: two answers that are both right
/// are the same answer.
pub proof fn lemma_first_set_unique(lanes: Seq<bool>, a: Option<usize>, b: Option<usize>)
    requires
        is_first_set(lanes, a),
        is_first_set(lanes, b),
    ensures
        a == b,
{
    match (a, b) {
        (Some(i), Some(j)) => {
            if i < j {
                assert(!lanes[i as int]);
            } else if j < i {
                assert(!lanes[j as int]);
            }
        },
        (Some(i), None) => {
            assert(!lanes[i as int]);
        },
        (None, Some(j)) => {
            assert(!lanes[j as int]);
        },
        (None, None) => {},
    }
}

/// A mask of `N` lanes for vectors with elements of type `T`.
#[derive(Debug, Hash)]
pub struct Mask<T: SimdElement, const N: usize> {
    ints: Simd<T::Mask, N>,
}

impl<T: SimdElement, const N: usize> View for Mask<T, N> {
    type V = Seq<bool>;

    closed spec fn view(&self) -> Seq<bool> {
        Seq::new(N as nat, |i: int| self.ints@[i].value() == -1)
    }
}

/// Every mask has exactly `N` lanes.
pub broadcast proof fn lemma_mask_len<T: SimdElement, const N: usize>(m: Mask<T, N>)
    ensures
        #[trigger] m@.len() == N,
{
}

/// Two well-formed masks with the same lanes are the same mask.
pub proof fn lemma_mask_ext_equal<T: SimdElement, const N: usize>(a: Mask<T, N>, b: Mask<T, N>)
    requires
        a.wf(),
        b.wf(),
    ensures
        a@ == b@ <==> a == b,
{
    if a@ == b@ {
        assert forall|i: int| 0 <= i < N implies a.ints@[i] == b.ints@[i] by {
            assert(a@[i] == b@[i]);
            assert(is_mask_lane(a.ints@[i].value()));
            assert(is_mask_lane(b.ints@[i].value()));
            T::Mask::lemma_value(a.ints@[i], b.ints@[i]);
        }
        assert(a.ints@ =~= b.ints@);
        lemma_simd_ext_equal(a.ints, b.ints);
    }
}

/// An array of booleans comes back from the mask that is made of it, and a
/// mask comes back from the array that is made of it.
pub proof fn lemma_array_round_trip<T: SimdElement, const N: usize>(
    array: [bool; N],
    mask: Mask<T, N>,
    array_back: [bool; N],
    mask_back: Mask<T, N>,
)
    requires
        mask.wf(),
        mask_back.wf(),
        mask@ == array@,
        array_back@ == mask@,
        mask_back@ == array_back@,
    ensures
        array_back == array,
        mask_back == mask,
{
    assert(array_back =~= array);
    lemma_mask_ext_equal(mask_back, mask);
}

impl<T: SimdElement, const N: usize> Clone for Mask<T, N> {
    fn clone(&self) -> (r: Self)
        ensures
            r == *self,
    {
        *self
    }
}

impl<T: SimdElement, const N: usize> Copy for Mask<T, N> {

}

impl<T: SimdElement, const N: usize> Mask<T, N> {
    /// The invariant of the type: every lane holds `0` or `-1`.
    #[verifier::type_invariant]
    pub closed spec fn wf(self) -> bool {
        forall|i: int| 0 <= i < N ==> is_mask_lane((#[trigger] self.ints@[i]).value())
    }

    /// The well-formed mask whose lanes are `lanes`, where `lanes` has length
    /// `N`.
    pub open spec fn with_lanes(lanes: Seq<bool>) -> Self {
        choose|m: Self| m.wf() && m@ == lanes
    }

    /// The lane of a mask that stands for `value`.
    fn lane_of(value: bool) -> (lane: T::Mask)
        ensures
            lane.value() == mask_lane_of(value),
    {
        if value {
            T::Mask::truth()
        } else {
            T::Mask::falsity()
        }
    }

    /// The mask with every lane set to `value`.
    pub fn splat(value: bool) -> (m: Self)
        ensures
            m@ == Seq::new(N as nat, |i: int| value),
    {
        let m = Mask { ints: Simd::splat(Self::lane_of(value)) };
        assert(m@ =~= Seq::new(N as nat, |i: int| value));
        m
    }

    /// The mask whose lane `i` is set exactly where `array[i]` is true.
    pub fn from_array(array: [bool; N]) -> (m: Self)
        ensures
            m@ == array@,
    {
        let mut ints = [T::Mask::falsity();N];
        let mut i: usize = 0;
        while i < N
            invariant
                i <= N,
                ints@.len() == N,
                forall|j: int| 0 <= j < i ==> (#[trigger] ints@[j]).value() == mask_lane_of(array@[j]),
                forall|j: int| i <= j < N ==> (#[trigger] ints@[j]).value() == 0,
            decreases N - i,
        {
            ints[i] = Self::lane_of(array[i]);
            i += 1;
        }
        let m = Mask { ints: Simd::from_array(ints) };
        assert(m@ =~= array@);
        m
    }

    /// The array whose element `i` is true exactly where lane `i` is set.
    pub fn to_array(self) -> (array: [bool; N])
        ensures
            array@ == self@,
    {
        let mut array = [false;N];
        let mut i: usize = 0;
        while i < N
            invariant
                i <= N,
                array@.len() == N,
                forall|j: int| 0 <= j < i ==> array@[j] == self@[j],
            decreases N - i,
        {
            array[i] = self.test(i);
            i += 1;
        }
        assert(array@ =~= self@);
        array
    }

    /// The mask that `value` represents, where `-1` stands for `true` and `0`
    /// for `false`. Every lane of `value` holds one of the two; nothing is
    /// tested.
    pub fn from_simd_unchecked(value: Simd<T::Mask, N>) -> (m: Self)
        requires
            forall|i: int| 0 <= i < N ==> is_mask_lane((#[trigger] value@[i]).value()),
        ensures
            m@ == Seq::new(N as nat, |i: int| value@[i].value() == -1),
    {
        let m = Mask { ints: value };
        assert(m@ =~= Seq::new(N as nat, |i: int| value@[i].value() == -1));
        m
    }

    /// The mask that `value` represents, where `-1` stands for `true` and `0`
    /// for `false`. Every lane of `value` holds one of the two.
    pub fn from_simd(value: Simd<T::Mask, N>) -> (m: Self)
        requires
            forall|i: int| 0 <= i < N ==> is_mask_lane((#[trigger] value@[i]).value()),
        ensures
            m@ == Seq::new(N as nat, |i: int| value@[i].value() == -1),
    {
        Self::from_simd_unchecked(value)
    }

    /// Whether every lane of `value` holds `0` or `-1`, so that `value`
    /// represents a mask.
    pub fn valid(value: Simd<T::Mask, N>) -> (r: bool)
        ensures
            r == forall|i: int| 0 <= i < N ==> is_mask_lane((#[trigger] value@[i]).value()),
    {
        let mut i: usize = 0;
        while i < N
            invariant
                i <= N,
                forall|j: int| 0 <= j < i ==> is_mask_lane((#[trigger] value@[j]).value()),
            decreases N - i,
        {
            let lane = value.lane(i);
            if !(lane.lane_eq(T::Mask::falsity()) || lane.lane_eq(T::Mask::truth())) {
                assert(!is_mask_lane(value@[i as int].value()));
                return false;
            }
            i += 1;
        }
        true
    }

    /// The vector of integers that represents the mask: `-1` in the lanes that
    /// are set, `0` in the others.
    pub fn to_simd(self) -> (value: Simd<T::Mask, N>)
        ensures
            value@.len() == N,
            forall|i: int| 0 <= i < N ==> (#[trigger] value@[i]).value() == mask_lane_of(self@[i]),
    {
        proof {
            use_type_invariant(self);
        }
        self.ints
    }

    /// The same lanes, as a mask for vectors of another element type.
    pub fn cast<U: SimdElement>(self) -> (m: Mask<U, N>)
        ensures
            m@ == self@,
    {
        let mut ints = [U::Mask::falsity();N];
        let mut i: usize = 0;
        while i < N
            invariant
                i <= N,
                ints@.len() == N,
                forall|j: int| 0 <= j < i ==> (#[trigger] ints@[j]).value() == mask_lane_of(self@[j]),
                forall|j: int| i <= j < N ==> (#[trigger] ints@[j]).value() == 0,
            decreases N - i,
        {
            ints[i] = Mask::<U, N>::lane_of(self.test(i));
            i += 1;
        }
        let m = Mask::<U, N> { ints: Simd::from_array(ints) };
        assert(m@ =~= self@);
        m
    }

    /// The mask of `M` lanes that agrees with this one in the lanes that both
    /// have, and holds `value` in the others.
    pub fn resize<const M: usize>(self, value: bool) -> (m: Mask<T, M>)
        ensures
            m@ == Seq::new(
                M as nat,
                |i: int|
                    if i < N {
                        self@[i]
                    } else {
                        value
                    },
            ),
    {
        let mut ints = [Self::lane_of(value);M];
        let mut i: usize = 0;
        while i < M && i < N
            invariant
                i <= M,
                i <= N,
                ints@.len() == M,
                forall|j: int| 0 <= j < i ==> (#[trigger] ints@[j]).value() == mask_lane_of(self@[j]),
                forall|j: int| i <= j < M ==> (#[trigger] ints@[j]).value() == mask_lane_of(value),
            decreases M - i,
        {
            ints[i] = Self::lane_of(self.test(i));
            i += 1;
        }
        let m = Mask::<T, M> { ints: Simd::from_array(ints) };
        assert(m@ =~= Seq::new(
            M as nat,
            |i: int|
                if i < N {
                    self@[i]
                } else {
                    value
                },
        ));
        m
    }

    /// Whether lane `index` is set. The index is less than `N`; nothing is
    /// tested.
    pub fn test_unchecked(&self, index: usize) -> (r: bool)
        requires
            index < N,
        ensures
            r == self@[index as int],
    {
        self.ints.lane(index).lane_eq(T::Mask::truth())
    }

    /// Whether lane `index` is set. The index is less than `N`.
    pub fn test(&self, index: usize) -> (r: bool)
        requires
            index < N,
        ensures
            r == self@[index as int],
    {
        self.test_unchecked(index)
    }

    /// Sets lane `index` to `value`. The index is less than `N`; nothing is
    /// tested.
    pub fn set_unchecked(&mut self, index: usize, value: bool)
        requires
            index < N,
        ensures
            final(self)@ == old(self)@.update(index as int, value),
    {
        proof {
            use_type_invariant(&*self);
        }
        let ghost before = self@;
        let mut ints = self.ints.to_array();
        ints[index] = Self::lane_of(value);
        self.ints = Simd::from_array(ints);
        assert(self@ =~= before.update(index as int, value));
    }

    /// Sets lane `index` to `value`. The index is less than `N`.
    pub fn set(&mut self, index: usize, value: bool)
        requires
            index < N,
        ensures
            final(self)@ == old(self)@.update(index as int, value),
    {
        self.set_unchecked(index, value)
    }

    /// Whether at least one lane is set.
    pub fn any(self) -> (r: bool)
        ensures
            r == exists|i: int| 0 <= i < N && self@[i],
    {
        let mut i: usize = 0;
        while i < N
            invariant
                i <= N,
                forall|j: int| 0 <= j < i ==> !self@[j],
            decreases N - i,
        {
            if self.test(i) {
                return true;
            }
            i += 1;
        }
        false
    }

    /// Whether every lane is set. A mask without lanes has every lane set.
    pub fn all(self) -> (r: bool)
        ensures
            r == forall|i: int| 0 <= i < N ==> self@[i],
    {
        let mut i: usize = 0;
        while i < N
            invariant
                i <= N,
                forall|j: int| 0 <= j < i ==> self@[j],
            decreases N - i,
        {
            if !self.test(i) {
                return false;
            }
            i += 1;
        }
        true
    }

    /// The bitmask of the mask: bit `i`, counted from the least significant,
    /// is set exactly where lane `i` is. The mask has at most 64 lanes.
    pub fn to_bitmask(self) -> (bits: u64)
        requires
            N <= MAX_LANES,
        ensures
            bits == bitmask_of(self@),
    {
        if N <= 8 {
            to_bitmask_impl::<T, 8, N>(self)
        } else if N <= 16 {
            to_bitmask_impl::<T, 16, N>(self)
        } else if N <= 32 {
            to_bitmask_impl::<T, 32, N>(self)
        } else {
            to_bitmask_impl::<T, 64, N>(self)
        }
    }

    /// The mask that `bitmask` stands for: lane `i` is set exactly where bit
    /// `i` is. Bits that have no lane are ignored, and lanes from the 64th on
    /// are not set.
    pub fn from_bitmask(bitmask: u64) -> (m: Self)
        ensures
            m@ == lanes_of_bitmask(bitmask, N as nat),
    {
        if N <= 64 {
            let lanes: Simd<T::Mask, N> = bitmask.select(
                Simd::splat(T::Mask::truth()),
                Simd::splat(T::Mask::falsity()),
            );
            let m = Mask { ints: lanes };
            assert(m@ =~= lanes_of_bitmask(bitmask, N as nat));
            m
        } else {
            let mut m = Self::splat(false);
            let mut i: usize = 0;
            while i < 64
                invariant
                    i <= 64,
                    N > 64,
                    m@.len() == N,
                    forall|j: int| 0 <= j < i ==> m@[j] == bit_is_set(bitmask, j),
                    forall|j: int| i <= j < N ==> !m@[j],
                decreases 64 - i,
            {
                m.set(i, crate::masks::to_bitmask::test_bit(bitmask, i));
                i += 1;
            }
            assert(m@ =~= lanes_of_bitmask(bitmask, N as nat));
            m
        }
    }

    /// The index of the first lane that is set, found from the bitmask: it is
    /// the number of zeros below the lowest bit that is set. The mask has at
    /// most 64 lanes.
    pub fn first_set_by_bitmask(self) -> (first: Option<usize>)
        requires
            N <= MAX_LANES,
        ensures
            is_first_set(self@, first),
    {
        let bits = self.to_bitmask();
        let zeros = bits.trailing_zeros();
        proof {
            vstd::std_specs::bits::axiom_u64_trailing_zeros(bits);
            assert forall|j: int| 0 <= j < N && j < zeros implies !self@[j] by {
                lemma_bitmask_of(self@, j);
                assert((bits >> (j as u64)) & 1u64 == 0u64);
            }
            if zeros < 64 {
                lemma_bitmask_of(self@, zeros as int);
                assert(bit_is_set(bits, zeros as int));
            }
        }
        if zeros == 64 {
            None
        } else {
            Some(zeros as usize)
        }
    }

    /// The index of the first lane that is set, found from the indices of
    /// the lanes: those of the lanes that are not set are replaced by a
    /// number greater than any index, and the least of all is taken.
    pub fn first_set_by_index(self) -> (first: Option<usize>)
        ensures
            is_first_set(self@, first),
    {
        if N == 0 {
            return None;
        }
        let mut index = [0usize;N];
        let mut i: usize = 0;
        while i < N
            invariant
                i <= N,
                index@.len() == N,
                forall|j: int| 0 <= j < i ==> #[trigger] index@[j] == j,
            decreases N - i,
        {
            index[i] = i;
            i += 1;
        }
        let index = Simd::from_array(index);
        let masked_index: Simd<usize, N> = self.select(index, Simd::splat(usize::MAX));
        let min_index = masked_index.horizontal_min();
        proof {
            assert forall|j: int| 0 <= j < N implies (#[trigger] masked_index@[j]) == if self@[j] {
                j as usize
            } else {
                usize::MAX
            } by {}
            let k = choose|k: int| 0 <= k < N && masked_index@[k] == min_index;
            if min_index != usize::MAX {
                assert(self@[k]);
                assert forall|j: int| 0 <= j < min_index implies !self@[j] by {
                    if self@[j] {
                        assert(masked_index@[j].value() >= min_index.value());
                    }
                }
            } else {
                assert forall|j: int| 0 <= j < N implies !self@[j] by {
                    if self@[j] {
                        assert(masked_index@[j].value() >= min_index.value());
                    }
                }
            }
        }
        if min_index == usize::MAX {
            None
        } else {
            Some(min_index)
        }
    }

    /// The index of the first lane that is set, or nothing where no lane is
    /// set.
    pub fn first_set(self) -> (first: Option<usize>)
        ensures
            is_first_set(self@, first),
    {
        if N <= MAX_LANES {
            self.first_set_by_bitmask()
        } else {
            self.first_set_by_index()
        }
    }
}

impl<T: SimdElement, const N: usize> From<[bool; N]> for Mask<T, N> {
    fn from(array: [bool; N]) -> (m: Self)
        ensures
            m@ == array@,
    {
        let m = Self::from_array(array);
        proof {
            use_type_invariant(m);
            let chosen = Self::with_lanes(array@);
            lemma_mask_ext_equal(m, chosen);
        }
        m
    }
}

impl<T: SimdElement, const N: usize> FromSpecImpl<[bool; N]> for Mask<T, N> {
    open spec fn obeys_from_spec() -> bool {
        true
    }

    open spec fn from_spec(array: [bool; N]) -> Self {
        Self::with_lanes(array@)
    }
}

impl<T: SimdElement, const N: usize> From<Mask<T, N>> for [bool; N] {
    fn from(mask: Mask<T, N>) -> (array: Self)
        ensures
            array@ == mask@,
    {
        let array = mask.to_array();
        proof {
            let chosen = choose|a: [bool; N]| a@ == mask@;
            assert(array =~= chosen);
        }
        array
    }
}

impl<T: SimdElement, const N: usize> FromSpecImpl<Mask<T, N>> for [bool; N] {
    open spec fn obeys_from_spec() -> bool {
        true
    }

    open spec fn from_spec(mask: Mask<T, N>) -> Self {
        choose|a: [bool; N]| a@ == mask@
    }
}

impl<T: SimdElement, const N: usize> Default for Mask<T, N> {
    /// The mask with no lane set.
    fn default() -> (m: Self)
        ensures
            m@ == Seq::new(N as nat, |i: int| false),
    {
        Self::splat(false)
    }
}

impl<T: SimdElement, const N: usize> PartialEq for Mask<T, N> {
    /// Two masks are equal when they agree in every lane.
    fn eq(&self, other: &Self) -> (r: bool) {
        let mut i: usize = 0;
        while i < N
            invariant
                i <= N,
                forall|j: int| 0 <= j < i ==> self@[j] == other@[j],
            decreases N - i,
        {
            if self.test(i) != other.test(i) {
                return false;
            }
            i += 1;
        }
        assert(self@ =~= other@);
        true
    }
}

impl<T: SimdElement, const N: usize> PartialEqSpecImpl for Mask<T, N> {
    open spec fn obeys_eq_spec() -> bool {
        true
    }

    open spec fn eq_spec(&self, other: &Self) -> bool {
        self@ == other@
    }
}

impl<T: SimdElement, const N: usize> Eq for Mask<T, N> {

}

} // verus!
