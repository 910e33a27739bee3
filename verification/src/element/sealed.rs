//! The mark of the lane types of the library.

use vstd::prelude::*;

verus! {

/// A type that the library itself has made a lane type. The trait cannot be
/// named from outside, so that no other type becomes one.
pub trait Sealed {

}

impl Sealed for u8 {

}

impl Sealed for u16 {

}

impl Sealed for u32 {

}

impl Sealed for u64 {

}

impl Sealed for usize {

}

impl Sealed for i8 {

}

impl Sealed for i16 {

}

impl Sealed for i32 {

}

impl Sealed for i64 {

}

impl Sealed for isize {

}

} // verus!
