//! From a scalar to the vectors of it, and back.

use crate::element::SimdElement;
use crate::vector::Simd;
use vstd::prelude::*;

verus! {

/// A scalar of which there are vectors.
pub trait Vectorize: Copy + Sized {
    /// The vector of `N` lanes that all hold `self`.
    fn splat<const N: usize>(self) -> (v: Simd<Self, N>)
        ensures
            v@ == Seq::new(N as nat, |i: int| self),
    ;
}

impl<T: SimdElement> Vectorize for T {
    fn splat<const N: usize>(self) -> (v: Simd<Self, N>) {
        Simd::splat(self)
    }
}

/// A vector of `N` lanes, which names the scalar type of its lanes.
pub trait Scalarize<const N: usize> {
    /// The type of the lanes.
    type Scalar: Vectorize;
}

impl<T: SimdElement, const N: usize> Scalarize<N> for Simd<T, N> {
    type Scalar = T;
}

} // verus!
