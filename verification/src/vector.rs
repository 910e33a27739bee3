//! The vector type: a fixed number of lanes of one element type.
//!
//! A vector is a value. Its meaning is the sequence of its lanes, which
//! [`Simd::view`] gives; every operation of the library is stated over that
//! sequence.

use crate::element::Int;
use vstd::prelude::*;
use vstd::std_specs::cmp::PartialEqSpecImpl;
use vstd::std_specs::convert::FromSpecImpl;

verus! {

/// A vector of `N` lanes of type `T`.
#[derive(Debug, Hash)]
pub struct Simd<T, const N: usize> {
    lanes: [T; N],
}

impl<T, const N: usize> View for Simd<T, N> {
    type V = Seq<T>;

    closed spec fn view(&self) -> Seq<T> {
        self.lanes@
    }
}

/// Every vector has exactly `N` lanes.
pub broadcast proof fn lemma_simd_len<T, const N: usize>(v: Simd<T, N>)
    ensures
        #[trigger] v@.len() == N,
{
}

/// Two vectors with the same lanes are the same vector.
pub proof fn lemma_simd_ext_equal<T, const N: usize>(a: Simd<T, N>, b: Simd<T, N>)
    ensures
        a@ == b@ <==> a == b,
{
    if a@ == b@ {
        assert(a.lanes =~= b.lanes);
    }
}

/// An index as a mathematical integer.
pub open spec fn index_of(i: usize) -> int {
    i as int
}

impl<T, const N: usize> Simd<T, N> {
    /// The vector whose lanes are `lanes`, where `lanes` has length `N`.
    pub open spec fn with_lanes(lanes: Seq<T>) -> Self {
        choose|v: Self| v@ == lanes
    }

    /// The array of the lanes.
    pub closed spec fn lanes_array(self) -> [T; N] {
        self.lanes
    }
}

impl<T: Copy, const N: usize> Clone for Simd<T, N> {
    fn clone(&self) -> (r: Self)
        ensures
            r == *self,
    {
        *self
    }
}

impl<T: Copy, const N: usize> Copy for Simd<T, N> {

}

impl<T: Copy, const N: usize> Simd<T, N> {
    /// The number of lanes of this vector.
    pub fn lanes(&self) -> (n: usize)
        ensures
            n == N,
    {
        N
    }

    /// The vector with every lane set to `value`.
    pub fn splat(value: T) -> (v: Self)
        ensures
            v@ == Seq::new(N as nat, |i: int| value),
    {
        let v = Self { lanes: [value;N] };
        assert(v@ =~= Seq::new(N as nat, |i: int| value));
        v
    }

    /// The lanes, as a reference to an array.
    pub fn as_array(&self) -> (array: &[T; N])
        ensures
            array@ == self@,
    {
        &self.lanes
    }

    /// The lanes, as a mutable reference to an array: what is written to the
    /// array is written to the vector.
    pub fn as_mut_array(&mut self) -> (array: &mut [T; N])
        ensures
            array@ == old(self)@,
            final(self)@ == final(array)@,
    {
        &mut self.lanes
    }

    /// The vector whose lanes are the elements of `array`.
    pub fn from_array(array: [T; N]) -> (v: Self)
        ensures
            v@ == array@,
    {
        Self { lanes: array }
    }

    /// The lanes, as an array.
    pub fn to_array(self) -> (array: [T; N])
        ensures
            array@ == self@,
            array == self.lanes_array(),
    {
        self.lanes
    }

    /// The vector of the first `N` elements of `slice`. The slice holds at
    /// least `N` elements, and at least one.
    pub fn from_slice(slice: &[T]) -> (v: Self)
        requires
            slice@.len() >= N,
            slice@.len() >= 1,
        ensures
            v@ == slice@.take(N as int),
    {
        let mut array = [slice[0];N];
        let mut i: usize = 0;
        while i < N
            invariant
                i <= N,
                slice@.len() >= N,
                array@.len() == N,
                forall|j: int| 0 <= j < i ==> array@[j] == slice@[j],
            decreases N - i,
        {
            array[i] = slice[i];
            i += 1;
        }
        let v = Self { lanes: array };
        assert(v@ =~= slice@.take(N as int));
        v
    }

    /// The vector of the first `N` elements of `src`. The slice holds at
    /// least `N` elements, and at least one; nothing is tested.
    pub fn load_from_slice_unchecked(src: &[T]) -> (v: Self)
        requires
            src@.len() >= N,
            src@.len() >= 1,
        ensures
            v@ == src@.take(N as int),
    {
        Self::from_slice(src)
    }

    /// The vector of the first `N` elements of `src`. The slice holds at
    /// least `N` elements, and at least one.
    pub fn load_from_slice(src: &[T]) -> (v: Self)
        requires
            src@.len() >= N,
            src@.len() >= 1,
        ensures
            v@ == src@.take(N as int),
    {
        Self::load_from_slice_unchecked(src)
    }

    /// Writes the lanes to the first `N` places of `dst`, and leaves the
    /// others as they are. The slice holds at least `N` elements; nothing is
    /// tested.
    pub fn store_to_slice_unchecked(self, dst: &mut [T])
        requires
            old(dst)@.len() >= N,
        ensures
            final(dst)@ == self@ + old(dst)@.skip(N as int),
    {
        let ghost before = dst@;
        let mut i: usize = 0;
        while i < N
            invariant
                i <= N,
                dst@.len() == before.len(),
                before.len() >= N,
                forall|j: int| 0 <= j < i ==> dst@[j] == self@[j],
                forall|j: int| i <= j < before.len() ==> dst@[j] == before[j],
            decreases N - i,
        {
            dst[i] = self.lanes[i];
            i += 1;
        }
        assert(dst@ =~= self@ + before.skip(N as int));
    }

    /// Writes the lanes to the first `N` places of `dst`, and leaves the
    /// others as they are. The slice holds at least `N` elements.
    pub fn store_to_slice(self, dst: &mut [T])
        requires
            old(dst)@.len() >= N,
        ensures
            final(dst)@ == self@ + old(dst)@.skip(N as int),
    {
        self.store_to_slice_unchecked(dst)
    }

    /// The vector of `M` lanes that agrees with this one in the lanes that
    /// both have, and holds `value` in the others.
    pub fn resize<const M: usize>(self, value: T) -> (v: Simd<T, M>)
        ensures
            v@ == Seq::new(
                M as nat,
                |i: int|
                    if i < N {
                        self@[i]
                    } else {
                        value
                    },
            ),
    {
        let mut array = [value;M];
        let mut i: usize = 0;
        while i < M && i < N
            invariant
                i <= M,
                i <= N,
                array@.len() == M,
                forall|j: int| 0 <= j < i ==> array@[j] == self@[j],
                forall|j: int| i <= j < M ==> array@[j] == value,
            decreases M - i,
        {
            array[i] = self.lanes[i];
            i += 1;
        }
        let v = Simd::<T, M> { lanes: array };
        assert(v@ =~= Seq::new(
            M as nat,
            |i: int|
                if i < N {
                    self@[i]
                } else {
                    value
                },
        ));
        v
    }

    /// The lane at `index`, which is less than `N`.
    pub fn lane(&self, index: usize) -> (value: T)
        requires
            index < N,
        ensures
            value == self@[index as int],
    {
        self.lanes[index]
    }
}

impl<T: Copy, const N: usize> From<[T; N]> for Simd<T, N> {
    fn from(array: [T; N]) -> (v: Self)
        ensures
            v@ == array@,
    {
        let v = Self::from_array(array);
        proof {
            lemma_simd_ext_equal(v, Self::with_lanes(array@));
        }
        v
    }
}

impl<T: Copy, const N: usize> FromSpecImpl<[T; N]> for Simd<T, N> {
    open spec fn obeys_from_spec() -> bool {
        true
    }

    open spec fn from_spec(array: [T; N]) -> Self {
        Self::with_lanes(array@)
    }
}

impl<T: Copy, const N: usize> From<Simd<T, N>> for [T; N] {
    fn from(vector: Simd<T, N>) -> (array: Self)
        ensures
            array@ == vector@,
    {
        vector.to_array()
    }
}

impl<T: Copy, const N: usize> FromSpecImpl<Simd<T, N>> for [T; N] {
    open spec fn obeys_from_spec() -> bool {
        true
    }

    open spec fn from_spec(vector: Simd<T, N>) -> Self {
        vector.lanes_array()
    }
}

impl<T: Copy, const N: usize> core::ops::Index<usize> for Simd<T, N> {
    type Output = T;

    fn index(&self, index: usize) -> (lane: &T)
        ensures
            *lane == self@[index as int],
    {
        &self.lanes[index]
    }
}

impl<T: Copy, const N: usize> vstd::std_specs::core::IndexSpecImpl<usize> for Simd<T, N> {
    open spec fn index_req(&self, index: &usize) -> bool {
        *index < N
    }
}

impl<T: Int, const N: usize> Default for Simd<T, N> {
    /// The vector whose lanes all hold zero.
    fn default() -> (v: Self)
        ensures
            v@.len() == N,
            forall|i: int| 0 <= i < N ==> (#[trigger] v@[i]).value() == 0,
    {
        Self::splat(T::lane_zero())
    }
}

impl<T: Int, const N: usize> PartialEq for Simd<T, N> {
    /// Two vectors are equal when they agree in every lane.
    fn eq(&self, other: &Self) -> (r: bool) {
        let mut i: usize = 0;
        while i < N
            invariant
                i <= N,
                forall|j: int| 0 <= j < i ==> self@[j] == other@[j],
            decreases N - i,
        {
            if !self.lanes[i].lane_eq(other.lanes[i]) {
                proof {
                    T::lemma_value(self@[i as int], other@[i as int]);
                }
                return false;
            }
            proof {
                T::lemma_value(self@[i as int], other@[i as int]);
            }
            i += 1;
        }
        assert(self@ =~= other@);
        true
    }
}

impl<T: Int, const N: usize> PartialEqSpecImpl for Simd<T, N> {
    open spec fn obeys_eq_spec() -> bool {
        true
    }

    open spec fn eq_spec(&self, other: &Self) -> bool {
        self@ == other@
    }
}

impl<T: Int, const N: usize> Eq for Simd<T, N> {

}

} // verus!
