//! The numbers of lanes that vectors are meant to have.
//!
//! The operations of the library are generic in the number of lanes and each
//! states what it needs of it. Every operation accepts the supported
//! numbers; most accept others as well.

use vstd::prelude::*;

verus! {

/// The greatest supported number of lanes: a bitmask of one bit for each lane
/// then fits an integer of 64 bits.
pub const MAX_LANES: usize = 64;

/// Whether `lanes` is a supported number of lanes: at least one and at most
/// [`MAX_LANES`].
pub open spec fn supported_lane_count(lanes: int) -> bool {
    1 <= lanes <= MAX_LANES
}

/// Whether `lanes` is a supported number of lanes.
pub fn is_supported_lane_count(lanes: usize) -> (r: bool)
    ensures
        r == supported_lane_count(lanes as int),
{
    1 <= lanes && lanes <= MAX_LANES
}

} // verus!
