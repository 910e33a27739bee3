//! Swizzling bytes by indices that are known only when the program runs.
//!
//! Output lane `i` is the byte that index `i` names, and zero where the index
//! names no lane of the vector. Vectors of 16, 32 and 64 bytes are swizzled
//! through lookups in tables of 16 bytes, which is what narrow hardware
//! offers; the other sizes lane by lane. Every way gives the same bytes.

use crate::comparisons::Relation;
use crate::select::Select;
use crate::vector::{lemma_simd_len, Simd};
use vstd::prelude::*;

verus! {

broadcast use lemma_simd_len;

/// The bytes that a swizzle by `idxs` makes of `bytes`: lane `i` is
/// `bytes[idxs[i]]`, and zero where `idxs[i]` is not the index of a lane.
pub open spec fn dyn_swizzled(bytes: Seq<u8>, idxs: Seq<u8>) -> Seq<u8> {
    Seq::new(
        bytes.len(),
        |i: int|
            if idxs[i] < bytes.len() {
                bytes[idxs[i] as int]
            } else {
                0u8
            },
    )
}

/// The indices that name a lane of a vector of `N` lanes, and `255` in place
/// of those that do not: a lookup that yields zero for an index with its top
/// bit set then yields zero for every index out of range.
pub fn zeroing_idxs<const N: usize>(idxs: Simd<u8, N>) -> (r: Simd<u8, N>)
    requires
        N <= 255,
    ensures
        r@ == Seq::new(
            N as nat,
            |i: int|
                if idxs@[i] < N {
                    idxs@[i]
                } else {
                    u8::MAX
                },
        ),
{
    let r = idxs.compare(Simd::splat(N as u8), Relation::Less).select(idxs, Simd::splat(u8::MAX));
    assert(r@ =~= Seq::new(
        N as nat,
        |i: int|
            if idxs@[i] < N {
                idxs@[i]
            } else {
                u8::MAX
            },
    ));
    r
}

/// A lookup in a table of 16 bytes: lane `i` is the byte of `table` that the
/// low four bits of `idxs[i]` name, and zero where the top bit of `idxs[i]`
/// is set.
pub fn table_lookup_16(table: Simd<u8, 16>, idxs: Simd<u8, 16>) -> (r: Simd<u8, 16>)
    ensures
        r@ == Seq::new(
            16,
            |i: int|
                if idxs@[i] >= 128 {
                    0u8
                } else {
                    table@[(idxs@[i] % 16) as int]
                },
        ),
{
    let mut lanes = [0u8;16];
    let mut i: usize = 0;
    while i < 16
        invariant
            i <= 16,
            forall|j: int|
                0 <= j < i ==> lanes@[j] == if idxs@[j] >= 128 {
                    0u8
                } else {
                    table@[(idxs@[j] % 16) as int]
                },
            forall|j: int| i <= j < 16 ==> lanes@[j] == 0,
        decreases 16 - i,
    {
        let k = idxs.lane(i);
        if k < 128 {
            lanes[i] = table.lane((k % 16) as usize);
        }
        i += 1;
    }
    let r = Simd::from_array(lanes);
    assert(r@ =~= Seq::new(
        16,
        |i: int|
            if idxs@[i] >= 128 {
                0u8
            } else {
                table@[(idxs@[i] % 16) as int]
            },
    ));
    r
}

/// Two lookups in tables of 16 bytes, side by side: each half of the result
/// looks up in the half of `table` that lies at the same place. Lane `i` is
/// the byte of its half that the low four bits of `idxs[i]` name, and zero
/// where the top bit of `idxs[i]` is set.
pub fn half_lookup_32(table: Simd<u8, 32>, idxs: Simd<u8, 32>) -> (r: Simd<u8, 32>)
    ensures
        r@ == Seq::new(
            32,
            |i: int|
                if idxs@[i] >= 128 {
                    0u8
                } else {
                    table@[16 * (i / 16) + idxs@[i] % 16]
                },
        ),
{
    let mut lanes = [0u8;32];
    let mut i: usize = 0;
    while i < 32
        invariant
            i <= 32,
            forall|j: int|
                0 <= j < i ==> lanes@[j] == if idxs@[j] >= 128 {
                    0u8
                } else {
                    table@[16 * (j / 16) + idxs@[j] % 16]
                },
            forall|j: int| i <= j < 32 ==> lanes@[j] == 0,
        decreases 32 - i,
    {
        let k = idxs.lane(i);
        if k < 128 {
            lanes[i] = table.lane(16 * (i / 16) + (k % 16) as usize);
        }
        i += 1;
    }
    let r = Simd::from_array(lanes);
    assert(r@ =~= Seq::new(
        32,
        |i: int|
            if idxs@[i] >= 128 {
                0u8
            } else {
                table@[16 * (i / 16) + idxs@[i] % 16]
            },
    ));
    r
}

/// One half of `bytes` in both halves of the result: the upper half where
/// `high` holds, the lower half where it does not.
pub fn broadcast_half_32(bytes: Simd<u8, 32>, high: bool) -> (r: Simd<u8, 32>)
    ensures
        r@ == Seq::new(
            32,
            |i: int|
                bytes@[i % 16 + if high {
                    16int
                } else {
                    0int
                }],
        ),
{
    let offset: usize = if high {
        16
    } else {
        0
    };
    let mut lanes = [0u8;32];
    let mut i: usize = 0;
    while i < 32
        invariant
            i <= 32,
            offset == if high {
                16int
            } else {
                0int
            },
            forall|j: int| 0 <= j < i ==> lanes@[j] == bytes@[j % 16 + offset],
        decreases 32 - i,
    {
        lanes[i] = bytes.lane(i % 16 + offset);
        i += 1;
    }
    let r = Simd::from_array(lanes);
    assert(r@ =~= Seq::new(
        32,
        |i: int|
            bytes@[i % 16 + if high {
                16int
            } else {
                0int
            }],
    ));
    r
}

/// The lanes of `b` where the top bit of the lane of `mask` is set, and the
/// lanes of `a` where it is not.
pub fn blend_32(a: Simd<u8, 32>, b: Simd<u8, 32>, mask: Simd<u8, 32>) -> (r: Simd<u8, 32>)
    ensures
        r@ == Seq::new(
            32,
            |i: int|
                if mask@[i] >= 128 {
                    b@[i]
                } else {
                    a@[i]
                },
        ),
{
    let chosen = mask.compare(Simd::splat(128u8), Relation::GreaterOrEqual).select(b, a);
    assert(chosen@ =~= Seq::new(
        32,
        |i: int|
            if mask@[i] >= 128 {
                b@[i]
            } else {
                a@[i]
            },
    ));
    chosen
}

/// The lanes of `idxs`, each shifted left by `shift` bits within its byte.
pub fn shift_left_lanes(idxs: Simd<u8, 32>, shift: u8) -> (r: Simd<u8, 32>)
    requires
        shift < 8,
    ensures
        r@ == Seq::new(32, |i: int| idxs@[i] << shift),
{
    let mut lanes = [0u8;32];
    let mut i: usize = 0;
    while i < 32
        invariant
            i <= 32,
            shift < 8,
            forall|j: int| 0 <= j < i ==> lanes@[j] == idxs@[j] << shift,
        decreases 32 - i,
    {
        lanes[i] = idxs.lane(i) << shift;
        i += 1;
    }
    let r = Simd::from_array(lanes);
    assert(r@ =~= Seq::new(32, |i: int| idxs@[i] << shift));
    r
}

/// A swizzle of 16 bytes by one lookup in a table of 16 bytes, with the
/// indices out of range turned into indices that yield zero.
pub fn swizzle_dyn_16(bytes: Simd<u8, 16>, idxs: Simd<u8, 16>) -> (r: Simd<u8, 16>)
    ensures
        r@ == dyn_swizzled(bytes@, idxs@),
{
    let r = table_lookup_16(bytes, zeroing_idxs(idxs));
    assert(r@ =~= dyn_swizzled(bytes@, idxs@));
    r
}

/// A swizzle of 32 bytes by lookups in tables of 16 bytes: one lookup in the
/// upper half, kept where the index is less than 32, and one in the lower
/// half, kept where the index is less than 16; zero elsewhere.
pub fn swizzle_dyn_32(bytes: Simd<u8, 32>, idxs: Simd<u8, 32>) -> (r: Simd<u8, 32>)
    ensures
        r@ == dyn_swizzled(bytes@, idxs@),
{
    let mid = Simd::<u8, 32>::splat(16u8);
    let high = Simd::<u8, 32>::splat(32u8);
    let hihi = broadcast_half_32(bytes, true);
    let hi_shuf = half_lookup_32(hihi, idxs);
    let compose = idxs.compare(high, Relation::Less).select(hi_shuf, Simd::splat(0u8));
    let lolo = broadcast_half_32(bytes, false);
    let lo_shuf = half_lookup_32(lolo, idxs);
    let compose = idxs.compare(mid, Relation::Less).select(lo_shuf, compose);
    assert(compose@ =~= dyn_swizzled(bytes@, idxs@));
    compose
}

proof fn lemma_index_bits(x: u8)
    by (bit_vector)
    ensures
        (x << 3u8) >= 128 <==> (x % 32) >= 16,
        (x << 2u8) >= 128 <==> (x % 64) >= 32,
{
}

/// Lookups, for 32 indices, in a table of 64 bytes given as two halves: the
/// low four bits of an index look up in each of the four quarters, and the
/// next two bits choose the quarter. An index of 64 or more yields some byte
/// of the table, or zero where its top bit is set.
fn half_swizzler(bytes0: Simd<u8, 32>, bytes1: Simd<u8, 32>, idxs: Simd<u8, 32>) -> (r: Simd<
    u8,
    32,
>)
    ensures
        forall|i: int|
            0 <= i < 32 && idxs@[i] < 64 ==> #[trigger] r@[i] == if idxs@[i] < 32 {
                bytes0@[idxs@[i] as int]
            } else {
                bytes1@[idxs@[i] - 32]
            },
{
    let mask0 = shift_left_lanes(idxs, 2);
    let mask1 = shift_left_lanes(idxs, 3);

    let lolo0 = half_lookup_32(broadcast_half_32(bytes0, false), idxs);
    let hihi0 = half_lookup_32(broadcast_half_32(bytes0, true), idxs);
    let x = blend_32(lolo0, hihi0, mask1);

    let lolo1 = half_lookup_32(broadcast_half_32(bytes1, false), idxs);
    let hihi1 = half_lookup_32(broadcast_half_32(bytes1, true), idxs);
    let y = blend_32(lolo1, hihi1, mask1);

    let r = blend_32(x, y, mask0);
    proof {
        assert forall|i: int| 0 <= i < 32 && idxs@[i] < 64 implies #[trigger] r@[i] == if idxs@[i]
            < 32 {
            bytes0@[idxs@[i] as int]
        } else {
            bytes1@[idxs@[i] - 32]
        } by {
            lemma_index_bits(idxs@[i]);
        }
    }
    r
}

/// A swizzle of 64 bytes by lookups in tables of 16 bytes, for each half of
/// the indices in turn; the lanes whose index is 64 or more are set to zero
/// at the end.
pub fn swizzle_dyn_64(bytes: Simd<u8, 64>, idxs: Simd<u8, 64>) -> (r: Simd<u8, 64>)
    ensures
        r@ == dyn_swizzled(bytes@, idxs@),
{
    let high = Simd::<u8, 64>::splat(64u8);
    let halves = bytes.split_to::<32>();
    let idx_halves = idxs.split_to::<32>();
    let bytes0 = halves[0];
    let bytes1 = halves[1];
    let idxs0 = idx_halves[0];
    let idxs1 = idx_halves[1];

    let z0 = half_swizzler(bytes0, bytes1, idxs0);
    let z1 = half_swizzler(bytes0, bytes1, idxs1);
    let z = z0.concat_to::<64>(z1);

    let r = idxs.compare(high, Relation::Less).select(z, Simd::splat(0u8));
    proof {
        assert forall|i: int| 0 <= i < 64 implies r@[i] == dyn_swizzled(bytes@, idxs@)[i] by {
            if idxs@[i] < 64 {
                if i < 32 {
                    assert(z@[i] == z0@[i]);
                    assert(idxs0@[i] == idxs@[i]);
                } else {
                    assert(z@[i] == z1@[i - 32]);
                    assert(idxs1@[i - 32] == idxs@[i]);
                }
            }
        }
        assert(r@ =~= dyn_swizzled(bytes@, idxs@));
    }
    r
}

impl<const N: usize> Simd<u8, N> {
    /// A swizzle lane by lane, for a vector of any size.
    pub fn swizzle_dyn_by_lane(self, idxs: Simd<u8, N>) -> (r: Self)
        ensures
            r@ == dyn_swizzled(self@, idxs@),
    {
        let mut array = [0u8;N];
        let mut i: usize = 0;
        while i < N
            invariant
                i <= N,
                array@.len() == N,
                forall|j: int| 0 <= j < i ==> array@[j] == dyn_swizzled(self@, idxs@)[j],
                forall|j: int| i <= j < N ==> array@[j] == 0,
            decreases N - i,
        {
            let k = idxs.lane(i);
            if (k as usize) < N {
                array[i] = self.lane(k as usize);
            }
            i += 1;
        }
        let r = Simd::from_array(array);
        assert(r@ =~= dyn_swizzled(self@, idxs@));
        r
    }

    /// Swizzles the bytes of the vector by the indices in `idxs`: lane `i` of
    /// the result is the lane of `self` that `idxs[i]` names, and zero where
    /// `idxs[i]` is not the index of a lane.
    pub fn swizzle_dyn(self, idxs: Simd<u8, N>) -> (r: Self)
        ensures
            r@ == dyn_swizzled(self@, idxs@),
    {
        if N == 16 {
            let r = swizzle_dyn_16(self.resize::<16>(0), idxs.resize::<16>(0)).resize::<N>(0);
            assert(r@ =~= dyn_swizzled(self@, idxs@));
            r
        } else if N == 32 {
            let r = swizzle_dyn_32(self.resize::<32>(0), idxs.resize::<32>(0)).resize::<N>(0);
            assert(r@ =~= dyn_swizzled(self@, idxs@));
            r
        } else if N == 64 {
            let r = swizzle_dyn_64(self.resize::<64>(0), idxs.resize::<64>(0)).resize::<N>(0);
            assert(r@ =~= dyn_swizzled(self@, idxs@));
            r
        } else {
            self.swizzle_dyn_by_lane(idxs)
        }
    }
}

} // verus!
