//! Gathering lanes from, and scattering lanes to, the places of a slice that
//! a vector of indices names.
//!
//! A lane takes part where its lane of the enabling mask is set and its index
//! lies within the slice. The checked operations leave out the lanes whose
//! index lies outside; the unchecked ones are for callers that have left
//! them out already.

use crate::element::Int;
use crate::masks::{lemma_mask_len, Mask};
use crate::vector::{lemma_simd_len, Simd};
use vstd::prelude::*;

verus! {

broadcast use {lemma_simd_len, lemma_mask_len};

/// Whether lane `i` takes part: it is enabled and its index lies within a
/// slice of `len` elements.
pub open spec fn lane_takes_part(enable: Seq<bool>, idxs: Seq<usize>, len: nat, i: int) -> bool {
    enable[i] && idxs[i] < len
}

/// Whether every lane that is enabled has its index within a slice of `len`
/// elements.
pub open spec fn enabled_in_bounds(enable: Seq<bool>, idxs: Seq<usize>, len: nat) -> bool {
    forall|i: int| 0 <= i < idxs.len() && enable[i] ==> (#[trigger] idxs[i]) < len
}

/// The lanes of a gather: lane `i` is `slice[idxs[i]]` where the lane takes
/// part, and lane `i` of `or` where it does not.
pub open spec fn gathered<E>(slice: Seq<E>, enable: Seq<bool>, idxs: Seq<usize>, or: Seq<E>) -> Seq<
    E,
> {
    Seq::new(
        or.len(),
        |i: int|
            if lane_takes_part(enable, idxs, slice.len(), i) {
                slice[idxs[i] as int]
            } else {
                or[i]
            },
    )
}

/// The slice after the first `lanes` lanes of a scatter: each lane that
/// takes part writes its value to `slice[idxs[i]]`, in the order of the
/// lanes, so that of two lanes with the same index the later one is kept.
pub open spec fn scattered<E>(
    slice: Seq<E>,
    enable: Seq<bool>,
    idxs: Seq<usize>,
    values: Seq<E>,
    lanes: nat,
) -> Seq<E>
    decreases lanes,
{
    if lanes == 0 {
        slice
    } else {
        let before = scattered(slice, enable, idxs, values, (lanes - 1) as nat);
        if lane_takes_part(enable, idxs, slice.len(), lanes - 1) {
            before.update(idxs[lanes - 1] as int, values[lanes - 1])
        } else {
            before
        }
    }
}

/// A scatter keeps the length of the slice. A place that no lane taking part
/// names is left as it was, and a place that some lane names holds the value
/// of one of the lanes that name it.
pub proof fn lemma_scattered<E>(
    slice: Seq<E>,
    enable: Seq<bool>,
    idxs: Seq<usize>,
    values: Seq<E>,
    lanes: nat,
    place: int,
)
    requires
        0 <= place < slice.len(),
    ensures
        scattered(slice, enable, idxs, values, lanes).len() == slice.len(),
        (forall|i: int|
            0 <= i < lanes ==> !(lane_takes_part(enable, idxs, slice.len(), i) && idxs[i] == place))
            ==> scattered(slice, enable, idxs, values, lanes)[place] == slice[place],
        (exists|i: int|
            0 <= i < lanes && lane_takes_part(enable, idxs, slice.len(), i) && idxs[i] == place)
            ==> exists|i: int|
            0 <= i < lanes && lane_takes_part(enable, idxs, slice.len(), i) && idxs[i] == place
                && scattered(slice, enable, idxs, values, lanes)[place] == values[i],
    decreases lanes,
{
    if lanes > 0 {
        let last = lanes - 1;
        lemma_scattered(slice, enable, idxs, values, last as nat, place);
        let before = scattered(slice, enable, idxs, values, last as nat);
        if exists|i: int|
            0 <= i < lanes && lane_takes_part(enable, idxs, slice.len(), i) && idxs[i] == place {
            if lane_takes_part(enable, idxs, slice.len(), last) && idxs[last] == place {
                assert(scattered(slice, enable, idxs, values, lanes)[place] == values[last]);
            } else {
                let w = choose|i: int|
                    0 <= i < lanes && lane_takes_part(enable, idxs, slice.len(), i) && idxs[i]
                        == place;
                assert(0 <= w < last);
                let k = choose|i: int|
                    0 <= i < last && lane_takes_part(enable, idxs, slice.len(), i) && idxs[i]
                        == place && before[place] == values[i];
                assert(scattered(slice, enable, idxs, values, lanes)[place] == values[k]);
            }
        }
    }
}

impl<T: Copy, const LANES: usize> Simd<T, LANES> {
    /// Reads the places of `slice` that `idxs` names. A lane whose index lies
    /// outside the slice is taken from `or`.
    pub fn gather_or(slice: &[T], idxs: Simd<usize, LANES>, or: Self) -> (r: Self)
        ensures
            r@ == gathered(slice@, Seq::new(LANES as nat, |i: int| true), idxs@, or@),
    {
        let r = Self::gather_select(slice, Mask::splat(true), idxs, or);
        assert(r@ =~= gathered(slice@, Seq::new(LANES as nat, |i: int| true), idxs@, or@));
        r
    }

    /// Reads the places of `slice` that `idxs` names. A lane that is not
    /// enabled, or whose index lies outside the slice, is taken from `or`.
    pub fn gather_select(
        slice: &[T],
        enable: Mask<isize, LANES>,
        idxs: Simd<usize, LANES>,
        or: Self,
    ) -> (r: Self)
        ensures
            r@ == gathered(slice@, enable@, idxs@, or@),
    {
        let in_bounds: Mask<isize, LANES> = idxs.lanes_lt(Simd::splat(slice.len())).cast();
        let enable: Mask<isize, LANES> = enable & in_bounds;
        let r = Self::gather_select_unchecked(slice, enable, idxs, or);
        assert(r@ =~= gathered(slice@, enable@, idxs@, or@));
        r
    }

    /// Reads the places of `slice` that `idxs` names. A lane that is not
    /// enabled is taken from `or`. Every lane that is enabled has its index
    /// within the slice; nothing is tested.
    pub fn gather_select_unchecked(
        slice: &[T],
        enable: Mask<isize, LANES>,
        idxs: Simd<usize, LANES>,
        or: Self,
    ) -> (r: Self)
        requires
            enabled_in_bounds(enable@, idxs@, slice@.len()),
        ensures
            r@ == gathered(slice@, enable@, idxs@, or@),
    {
        let mut lanes = or.to_array();
        let mut i: usize = 0;
        while i < LANES
            invariant
                i <= LANES,
                lanes@.len() == LANES,
                enabled_in_bounds(enable@, idxs@, slice@.len()),
                forall|j: int| 0 <= j < i ==> lanes@[j] == gathered(slice@, enable@, idxs@, or@)[j],
                forall|j: int| i <= j < LANES ==> lanes@[j] == or@[j],
            decreases LANES - i,
        {
            if enable.test(i) {
                assert(idxs@[i as int] < slice@.len());
                lanes[i] = slice[idxs.lane(i)];
            }
            i += 1;
        }
        let r = Simd::from_array(lanes);
        assert(r@ =~= gathered(slice@, enable@, idxs@, or@));
        r
    }

    /// Writes the lanes to the places of `slice` that `idxs` names. A lane
    /// whose index lies outside the slice is not written. Of two lanes with
    /// the same index the later one is kept.
    pub fn scatter(self, slice: &mut [T], idxs: Simd<usize, LANES>)
        ensures
            final(slice)@ == scattered(
                old(slice)@,
                Seq::new(LANES as nat, |i: int| true),
                idxs@,
                self@,
                LANES as nat,
            ),
    {
        let ghost before = slice@;
        let enable = Mask::<isize, LANES>::splat(true);
        self.scatter_select(slice, enable, idxs);
        assert(enable@ =~= Seq::new(LANES as nat, |i: int| true));
    }

    /// Writes the lanes that are enabled to the places of `slice` that `idxs`
    /// names. A lane whose index lies outside the slice is not written. Of
    /// two enabled lanes with the same index the later one is kept.
    pub fn scatter_select(
        self,
        slice: &mut [T],
        enable: Mask<isize, LANES>,
        idxs: Simd<usize, LANES>,
    )
        ensures
            final(slice)@ == scattered(old(slice)@, enable@, idxs@, self@, LANES as nat),
    {
        let ghost before = slice@;
        let in_bounds: Mask<isize, LANES> = idxs.lanes_lt(Simd::splat(slice.len())).cast();
        let narrowed: Mask<isize, LANES> = enable & in_bounds;
        self.scatter_select_unchecked(slice, narrowed, idxs);
        proof {
            lemma_scattered_same(before, narrowed@, enable@, idxs@, self@, LANES as nat);
        }
    }

    /// Writes the lanes that are enabled to the places of `slice` that `idxs`
    /// names. Every lane that is enabled has its index within the slice;
    /// nothing is tested. Of two enabled lanes with the same index the later
    /// one is kept.
    pub fn scatter_select_unchecked(
        self,
        slice: &mut [T],
        enable: Mask<isize, LANES>,
        idxs: Simd<usize, LANES>,
    )
        requires
            enabled_in_bounds(enable@, idxs@, old(slice)@.len()),
        ensures
            final(slice)@ == scattered(old(slice)@, enable@, idxs@, self@, LANES as nat),
    {
        let ghost before = slice@;
        let mut i: usize = 0;
        while i < LANES
            invariant
                i <= LANES,
                slice@.len() == before.len(),
                enabled_in_bounds(enable@, idxs@, before.len()),
                slice@ == scattered(before, enable@, idxs@, self@, i as nat),
            decreases LANES - i,
        {
            if enable.test(i) {
                assert(idxs@[i as int] < before.len());
                slice[idxs.lane(i)] = self.lane(i);
            }
            i += 1;
        }
    }
}

/// Enabling masks that agree on the lanes whose index lies within the slice
/// give the same scatter.
proof fn lemma_scattered_same<E>(
    slice: Seq<E>,
    a: Seq<bool>,
    b: Seq<bool>,
    idxs: Seq<usize>,
    values: Seq<E>,
    lanes: nat,
)
    requires
        forall|i: int|
            0 <= i < lanes ==> lane_takes_part(a, idxs, slice.len(), i) == lane_takes_part(
                b,
                idxs,
                slice.len(),
                i,
            ),
    ensures
        scattered(slice, a, idxs, values, lanes) == scattered(slice, b, idxs, values, lanes),
    decreases lanes,
{
    if lanes > 0 {
        lemma_scattered_same(slice, a, b, idxs, values, (lanes - 1) as nat);
    }
}

impl<T: Int, const LANES: usize> Simd<T, LANES> {
    /// Reads the places of `slice` that `idxs` names. A lane whose index lies
    /// outside the slice holds zero.
    pub fn gather_or_default(slice: &[T], idxs: Simd<usize, LANES>) -> (r: Self)
        ensures
            r@.len() == LANES,
            forall|i: int|
                0 <= i < LANES ==> if idxs@[i] < slice@.len() {
                    r@[i] == slice@[idxs@[i] as int]
                } else {
                    (#[trigger] r@[i]).value() == 0
                },
    {
        Self::gather_or(slice, idxs, Self::splat(T::lane_zero()))
    }
}

} // verus!
