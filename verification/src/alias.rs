//! Short names for the vector and mask types.

use crate::masks::Mask;
use crate::vector::Simd;
use vstd::prelude::*;

verus! {

/// A vector with `N` elements of type `i8`.
#[allow(non_camel_case_types)]
pub type i8xN<const N: usize> = Simd<i8, N>;

/// A vector with `N` elements of type `i16`.
#[allow(non_camel_case_types)]
pub type i16xN<const N: usize> = Simd<i16, N>;

/// A vector with `N` elements of type `i32`.
#[allow(non_camel_case_types)]
pub type i32xN<const N: usize> = Simd<i32, N>;

/// A vector with `N` elements of type `i64`.
#[allow(non_camel_case_types)]
pub type i64xN<const N: usize> = Simd<i64, N>;

/// A vector with `N` elements of type `isize`.
#[allow(non_camel_case_types)]
pub type isizexN<const N: usize> = Simd<isize, N>;

/// A vector with `N` elements of type `u8`.
#[allow(non_camel_case_types)]
pub type u8xN<const N: usize> = Simd<u8, N>;

/// A vector with `N` elements of type `u16`.
#[allow(non_camel_case_types)]
pub type u16xN<const N: usize> = Simd<u16, N>;

/// A vector with `N` elements of type `u32`.
#[allow(non_camel_case_types)]
pub type u32xN<const N: usize> = Simd<u32, N>;

/// A vector with `N` elements of type `u64`.
#[allow(non_camel_case_types)]
pub type u64xN<const N: usize> = Simd<u64, N>;

/// A vector with `N` elements of type `usize`.
#[allow(non_camel_case_types)]
pub type usizexN<const N: usize> = Simd<usize, N>;

/// A vector with one element of type `i8`.
#[allow(non_camel_case_types)]
pub type i8x1 = Simd<i8, 1>;

/// A vector with two elements of type `i8`.
#[allow(non_camel_case_types)]
pub type i8x2 = Simd<i8, 2>;

/// A vector with four elements of type `i8`.
#[allow(non_camel_case_types)]
pub type i8x4 = Simd<i8, 4>;

/// A vector with eight elements of type `i8`.
#[allow(non_camel_case_types)]
pub type i8x8 = Simd<i8, 8>;

/// A vector with 16 elements of type `i8`.
#[allow(non_camel_case_types)]
pub type i8x16 = Simd<i8, 16>;

/// A vector with 32 elements of type `i8`.
#[allow(non_camel_case_types)]
pub type i8x32 = Simd<i8, 32>;

/// A vector with 64 elements of type `i8`.
#[allow(non_camel_case_types)]
pub type i8x64 = Simd<i8, 64>;

/// A vector with one element of type `i16`.
#[allow(non_camel_case_types)]
pub type i16x1 = Simd<i16, 1>;

/// A vector with two elements of type `i16`.
#[allow(non_camel_case_types)]
pub type i16x2 = Simd<i16, 2>;

/// A vector with four elements of type `i16`.
#[allow(non_camel_case_types)]
pub type i16x4 = Simd<i16, 4>;

/// A vector with eight elements of type `i16`.
#[allow(non_camel_case_types)]
pub type i16x8 = Simd<i16, 8>;

/// A vector with 16 elements of type `i16`.
#[allow(non_camel_case_types)]
pub type i16x16 = Simd<i16, 16>;

/// A vector with 32 elements of type `i16`.
#[allow(non_camel_case_types)]
pub type i16x32 = Simd<i16, 32>;

/// A vector with 64 elements of type `i16`.
#[allow(non_camel_case_types)]
pub type i16x64 = Simd<i16, 64>;

/// A vector with one element of type `i32`.
#[allow(non_camel_case_types)]
pub type i32x1 = Simd<i32, 1>;

/// A vector with two elements of type `i32`.
#[allow(non_camel_case_types)]
pub type i32x2 = Simd<i32, 2>;

/// A vector with four elements of type `i32`.
#[allow(non_camel_case_types)]
pub type i32x4 = Simd<i32, 4>;

/// A vector with eight elements of type `i32`.
#[allow(non_camel_case_types)]
pub type i32x8 = Simd<i32, 8>;

/// A vector with 16 elements of type `i32`.
#[allow(non_camel_case_types)]
pub type i32x16 = Simd<i32, 16>;

/// A vector with 32 elements of type `i32`.
#[allow(non_camel_case_types)]
pub type i32x32 = Simd<i32, 32>;

/// A vector with 64 elements of type `i32`.
#[allow(non_camel_case_types)]
pub type i32x64 = Simd<i32, 64>;

/// A vector with one element of type `i64`.
#[allow(non_camel_case_types)]
pub type i64x1 = Simd<i64, 1>;

/// A vector with two elements of type `i64`.
#[allow(non_camel_case_types)]
pub type i64x2 = Simd<i64, 2>;

/// A vector with four elements of type `i64`.
#[allow(non_camel_case_types)]
pub type i64x4 = Simd<i64, 4>;

/// A vector with eight elements of type `i64`.
#[allow(non_camel_case_types)]
pub type i64x8 = Simd<i64, 8>;

/// A vector with 16 elements of type `i64`.
#[allow(non_camel_case_types)]
pub type i64x16 = Simd<i64, 16>;

/// A vector with 32 elements of type `i64`.
#[allow(non_camel_case_types)]
pub type i64x32 = Simd<i64, 32>;

/// A vector with 64 elements of type `i64`.
#[allow(non_camel_case_types)]
pub type i64x64 = Simd<i64, 64>;

/// A vector with one element of type `isize`.
#[allow(non_camel_case_types)]
pub type isizex1 = Simd<isize, 1>;

/// A vector with two elements of type `isize`.
#[allow(non_camel_case_types)]
pub type isizex2 = Simd<isize, 2>;

/// A vector with four elements of type `isize`.
#[allow(non_camel_case_types)]
pub type isizex4 = Simd<isize, 4>;

/// A vector with eight elements of type `isize`.
#[allow(non_camel_case_types)]
pub type isizex8 = Simd<isize, 8>;

/// A vector with 16 elements of type `isize`.
#[allow(non_camel_case_types)]
pub type isizex16 = Simd<isize, 16>;

/// A vector with 32 elements of type `isize`.
#[allow(non_camel_case_types)]
pub type isizex32 = Simd<isize, 32>;

/// A vector with 64 elements of type `isize`.
#[allow(non_camel_case_types)]
pub type isizex64 = Simd<isize, 64>;

/// A vector with one element of type `u8`.
#[allow(non_camel_case_types)]
pub type u8x1 = Simd<u8, 1>;

/// A vector with two elements of type `u8`.
#[allow(non_camel_case_types)]
pub type u8x2 = Simd<u8, 2>;

/// A vector with four elements of type `u8`.
#[allow(non_camel_case_types)]
pub type u8x4 = Simd<u8, 4>;

/// A vector with eight elements of type `u8`.
#[allow(non_camel_case_types)]
pub type u8x8 = Simd<u8, 8>;

/// A vector with 16 elements of type `u8`.
#[allow(non_camel_case_types)]
pub type u8x16 = Simd<u8, 16>;

/// A vector with 32 elements of type `u8`.
#[allow(non_camel_case_types)]
pub type u8x32 = Simd<u8, 32>;

/// A vector with 64 elements of type `u8`.
#[allow(non_camel_case_types)]
pub type u8x64 = Simd<u8, 64>;

/// A vector with one element of type `u16`.
#[allow(non_camel_case_types)]
pub type u16x1 = Simd<u16, 1>;

/// A vector with two elements of type `u16`.
#[allow(non_camel_case_types)]
pub type u16x2 = Simd<u16, 2>;

/// A vector with four elements of type `u16`.
#[allow(non_camel_case_types)]
pub type u16x4 = Simd<u16, 4>;

/// A vector with eight elements of type `u16`.
#[allow(non_camel_case_types)]
pub type u16x8 = Simd<u16, 8>;

/// A vector with 16 elements of type `u16`.
#[allow(non_camel_case_types)]
pub type u16x16 = Simd<u16, 16>;

/// A vector with 32 elements of type `u16`.
#[allow(non_camel_case_types)]
pub type u16x32 = Simd<u16, 32>;

/// A vector with 64 elements of type `u16`.
#[allow(non_camel_case_types)]
pub type u16x64 = Simd<u16, 64>;

/// A vector with one element of type `u32`.
#[allow(non_camel_case_types)]
pub type u32x1 = Simd<u32, 1>;

/// A vector with two elements of type `u32`.
#[allow(non_camel_case_types)]
pub type u32x2 = Simd<u32, 2>;

/// A vector with four elements of type `u32`.
#[allow(non_camel_case_types)]
pub type u32x4 = Simd<u32, 4>;

/// A vector with eight elements of type `u32`.
#[allow(non_camel_case_types)]
pub type u32x8 = Simd<u32, 8>;

/// A vector with 16 elements of type `u32`.
#[allow(non_camel_case_types)]
pub type u32x16 = Simd<u32, 16>;

/// A vector with 32 elements of type `u32`.
#[allow(non_camel_case_types)]
pub type u32x32 = Simd<u32, 32>;

/// A vector with 64 elements of type `u32`.
#[allow(non_camel_case_types)]
pub type u32x64 = Simd<u32, 64>;

/// A vector with one element of type `u64`.
#[allow(non_camel_case_types)]
pub type u64x1 = Simd<u64, 1>;

/// A vector with two elements of type `u64`.
#[allow(non_camel_case_types)]
pub type u64x2 = Simd<u64, 2>;

/// A vector with four elements of type `u64`.
#[allow(non_camel_case_types)]
pub type u64x4 = Simd<u64, 4>;

/// A vector with eight elements of type `u64`.
#[allow(non_camel_case_types)]
pub type u64x8 = Simd<u64, 8>;

/// A vector with 16 elements of type `u64`.
#[allow(non_camel_case_types)]
pub type u64x16 = Simd<u64, 16>;

/// A vector with 32 elements of type `u64`.
#[allow(non_camel_case_types)]
pub type u64x32 = Simd<u64, 32>;

/// A vector with 64 elements of type `u64`.
#[allow(non_camel_case_types)]
pub type u64x64 = Simd<u64, 64>;

/// A vector with one element of type `usize`.
#[allow(non_camel_case_types)]
pub type usizex1 = Simd<usize, 1>;

/// A vector with two elements of type `usize`.
#[allow(non_camel_case_types)]
pub type usizex2 = Simd<usize, 2>;

/// A vector with four elements of type `usize`.
#[allow(non_camel_case_types)]
pub type usizex4 = Simd<usize, 4>;

/// A vector with eight elements of type `usize`.
#[allow(non_camel_case_types)]
pub type usizex8 = Simd<usize, 8>;

/// A vector with 16 elements of type `usize`.
#[allow(non_camel_case_types)]
pub type usizex16 = Simd<usize, 16>;

/// A vector with 32 elements of type `usize`.
#[allow(non_camel_case_types)]
pub type usizex32 = Simd<usize, 32>;

/// A vector with 64 elements of type `usize`.
#[allow(non_camel_case_types)]
pub type usizex64 = Simd<usize, 64>;

/// A mask with `N` elements for vectors with 8-bit element types.
#[allow(non_camel_case_types)]
pub type mask8xN<const N: usize> = Mask<i8, N>;

/// A mask with `N` elements for vectors with 16-bit element types.
#[allow(non_camel_case_types)]
pub type mask16xN<const N: usize> = Mask<i16, N>;

/// A mask with `N` elements for vectors with 32-bit element types.
#[allow(non_camel_case_types)]
pub type mask32xN<const N: usize> = Mask<i32, N>;

/// A mask with `N` elements for vectors with 64-bit element types.
#[allow(non_camel_case_types)]
pub type mask64xN<const N: usize> = Mask<i64, N>;

/// A mask with `N` elements for vectors with pointer-sized element types.
#[allow(non_camel_case_types)]
pub type masksizexN<const N: usize> = Mask<isize, N>;

/// A mask with one element for vectors with 8-bit element types.
#[allow(non_camel_case_types)]
pub type mask8x1 = Mask<i8, 1>;

/// A mask with two elements for vectors with 8-bit element types.
#[allow(non_camel_case_types)]
pub type mask8x2 = Mask<i8, 2>;

/// A mask with four elements for vectors with 8-bit element types.
#[allow(non_camel_case_types)]
pub type mask8x4 = Mask<i8, 4>;

/// A mask with eight elements for vectors with 8-bit element types.
#[allow(non_camel_case_types)]
pub type mask8x8 = Mask<i8, 8>;

/// A mask with 16 elements for vectors with 8-bit element types.
#[allow(non_camel_case_types)]
pub type mask8x16 = Mask<i8, 16>;

/// A mask with 32 elements for vectors with 8-bit element types.
#[allow(non_camel_case_types)]
pub type mask8x32 = Mask<i8, 32>;

/// A mask with 64 elements for vectors with 8-bit element types.
#[allow(non_camel_case_types)]
pub type mask8x64 = Mask<i8, 64>;

/// A mask with one element for vectors with 16-bit element types.
#[allow(non_camel_case_types)]
pub type mask16x1 = Mask<i16, 1>;

/// A mask with two elements for vectors with 16-bit element types.
#[allow(non_camel_case_types)]
pub type mask16x2 = Mask<i16, 2>;

/// A mask with four elements for vectors with 16-bit element types.
#[allow(non_camel_case_types)]
pub type mask16x4 = Mask<i16, 4>;

/// A mask with eight elements for vectors with 16-bit element types.
#[allow(non_camel_case_types)]
pub type mask16x8 = Mask<i16, 8>;

/// A mask with 16 elements for vectors with 16-bit element types.
#[allow(non_camel_case_types)]
pub type mask16x16 = Mask<i16, 16>;

/// A mask with 32 elements for vectors with 16-bit element types.
#[allow(non_camel_case_types)]
pub type mask16x32 = Mask<i16, 32>;

/// A mask with 64 elements for vectors with 16-bit element types.
#[allow(non_camel_case_types)]
pub type mask16x64 = Mask<i16, 64>;

/// A mask with one element for vectors with 32-bit element types.
#[allow(non_camel_case_types)]
pub type mask32x1 = Mask<i32, 1>;

/// A mask with two elements for vectors with 32-bit element types.
#[allow(non_camel_case_types)]
pub type mask32x2 = Mask<i32, 2>;

/// A mask with four elements for vectors with 32-bit element types.
#[allow(non_camel_case_types)]
pub type mask32x4 = Mask<i32, 4>;

/// A mask with eight elements for vectors with 32-bit element types.
#[allow(non_camel_case_types)]
pub type mask32x8 = Mask<i32, 8>;

/// A mask with 16 elements for vectors with 32-bit element types.
#[allow(non_camel_case_types)]
pub type mask32x16 = Mask<i32, 16>;

/// A mask with 32 elements for vectors with 32-bit element types.
#[allow(non_camel_case_types)]
pub type mask32x32 = Mask<i32, 32>;

/// A mask with 64 elements for vectors with 32-bit element types.
#[allow(non_camel_case_types)]
pub type mask32x64 = Mask<i32, 64>;

/// A mask with one element for vectors with 64-bit element types.
#[allow(non_camel_case_types)]
pub type mask64x1 = Mask<i64, 1>;

/// A mask with two elements for vectors with 64-bit element types.
#[allow(non_camel_case_types)]
pub type mask64x2 = Mask<i64, 2>;

/// A mask with four elements for vectors with 64-bit element types.
#[allow(non_camel_case_types)]
pub type mask64x4 = Mask<i64, 4>;

/// A mask with eight elements for vectors with 64-bit element types.
#[allow(non_camel_case_types)]
pub type mask64x8 = Mask<i64, 8>;

/// A mask with 16 elements for vectors with 64-bit element types.
#[allow(non_camel_case_types)]
pub type mask64x16 = Mask<i64, 16>;

/// A mask with 32 elements for vectors with 64-bit element types.
#[allow(non_camel_case_types)]
pub type mask64x32 = Mask<i64, 32>;

/// A mask with 64 elements for vectors with 64-bit element types.
#[allow(non_camel_case_types)]
pub type mask64x64 = Mask<i64, 64>;

/// A mask with one element for vectors with pointer-sized element types.
#[allow(non_camel_case_types)]
pub type masksizex1 = Mask<isize, 1>;

/// A mask with two elements for vectors with pointer-sized element types.
#[allow(non_camel_case_types)]
pub type masksizex2 = Mask<isize, 2>;

/// A mask with four elements for vectors with pointer-sized element types.
#[allow(non_camel_case_types)]
pub type masksizex4 = Mask<isize, 4>;

/// A mask with eight elements for vectors with pointer-sized element types.
#[allow(non_camel_case_types)]
pub type masksizex8 = Mask<isize, 8>;

/// A mask with 16 elements for vectors with pointer-sized element types.
#[allow(non_camel_case_types)]
pub type masksizex16 = Mask<isize, 16>;

/// A mask with 32 elements for vectors with pointer-sized element types.
#[allow(non_camel_case_types)]
pub type masksizex32 = Mask<isize, 32>;

/// A mask with 64 elements for vectors with pointer-sized element types.
#[allow(non_camel_case_types)]
pub type masksizex64 = Mask<isize, 64>;

} // verus!
