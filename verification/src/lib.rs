//! Portable vectors: a fixed number of lanes of one integer type, the masks
//! that go with them, and the operations that choose, compare, permute,
//! gather and reduce lanes.
//!
//! Every operation is stated over the sequence of lanes of its operands, and
//! proved to compute what is stated.

pub mod alias;
pub mod butterfly;
pub mod comparisons;
pub mod element;
pub mod gather;
pub mod lane_count;
pub mod lexical;
pub mod masks;
pub mod math;
pub mod ops;
pub mod order;
pub mod reduction;
pub mod select;
pub mod swizzle;
pub mod swizzle_dyn;
pub mod vector;
pub mod vectorize;

pub use comparisons::Relation;
pub use element::{Int, MaskElement, SInt, SimdElement};
pub use masks::to_bitmask::{bitmask_len, ToBitMask, ToBitMaskArray};
pub use masks::Mask;
pub use math::{SimdAbs, SimdInt, SimdSignum};
pub use order::{SimdOrd, SimdPartialEq, SimdPartialOrd};
pub use reduction::HorizontalArith;
pub use select::Select;
pub use swizzle::{Swizzle, Swizzle2, Which};
pub use vector::Simd;
pub use vectorize::{Scalarize, Vectorize};
