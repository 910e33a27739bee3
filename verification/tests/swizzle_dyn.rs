use core_simd::swizzle_dyn::{
    blend_32, broadcast_half_32, half_lookup_32, shift_left_lanes, swizzle_dyn_16, swizzle_dyn_32,
    swizzle_dyn_64, table_lookup_16, zeroing_idxs,
};
use core_simd::Simd;

fn bytes<const N: usize>() -> Simd<u8, N> {
    let mut array = [0u8; N];
    for (i, lane) in array.iter_mut().enumerate() {
        *lane = (i as u8).wrapping_mul(7).wrapping_add(3);
    }
    Simd::from_array(array)
}

/// Indices that run through every byte value as `round` goes from 0 to 255.
fn indices<const N: usize>(round: usize) -> Simd<u8, N> {
    let mut array = [0u8; N];
    for (i, lane) in array.iter_mut().enumerate() {
        *lane = ((i * 37 + round * 11) % 256) as u8;
    }
    Simd::from_array(array)
}

fn expected<const N: usize>(bytes: Simd<u8, N>, idxs: Simd<u8, N>) -> [u8; N] {
    let mut out = [0u8; N];
    for i in 0..N {
        let k = idxs[i] as usize;
        out[i] = if k < N { bytes[k] } else { 0 };
    }
    out
}

fn check<const N: usize>() {
    let b = bytes::<N>();
    for round in 0..256 {
        let idxs = indices::<N>(round);
        assert_eq!(b.swizzle_dyn(idxs).to_array(), expected(b, idxs));
        assert_eq!(b.swizzle_dyn_by_lane(idxs).to_array(), expected(b, idxs));
    }
}

#[test]
fn swizzle_dyn_in_range() {
    let b = Simd::from_array([10u8, 11, 12, 13]);
    let idxs = Simd::from_array([3u8, 3, 0, 1]);
    assert_eq!(b.swizzle_dyn(idxs).to_array(), [13, 13, 10, 11]);
}

#[test]
fn swizzle_dyn_out_of_range_is_zero() {
    let b = Simd::from_array([10u8, 11, 12, 13]);
    let idxs = Simd::from_array([4u8, 255, 128, 2]);
    assert_eq!(b.swizzle_dyn(idxs).to_array(), [0, 0, 0, 12]);
}

#[test]
fn swizzle_dyn_every_size() {
    check::<1>();
    check::<2>();
    check::<3>();
    check::<8>();
    check::<16>();
    check::<24>();
    check::<32>();
    check::<48>();
    check::<64>();
}

#[test]
fn every_way_to_swizzle_gives_the_same_bytes() {
    let b16 = bytes::<16>();
    let b32 = bytes::<32>();
    let b64 = bytes::<64>();
    for round in 0..256 {
        let i16 = indices::<16>(round);
        let i32 = indices::<32>(round);
        let i64 = indices::<64>(round);
        assert_eq!(swizzle_dyn_16(b16, i16).to_array(), expected(b16, i16));
        assert_eq!(swizzle_dyn_32(b32, i32).to_array(), expected(b32, i32));
        assert_eq!(swizzle_dyn_64(b64, i64).to_array(), expected(b64, i64));
    }
}

#[test]
fn the_boundaries_of_the_tables() {
    let b64 = bytes::<64>();
    for k in [0u8, 15, 16, 31, 32, 47, 48, 63, 64, 65, 127, 128, 192, 255] {
        let idxs = Simd::<u8, 64>::splat(k);
        let lane = if k < 64 { b64[k as usize] } else { 0 };
        assert_eq!(swizzle_dyn_64(b64, idxs), Simd::splat(lane));
    }
    let b32 = bytes::<32>();
    for k in [0u8, 15, 16, 31, 32, 33, 127, 128, 143, 144, 255] {
        let idxs = Simd::<u8, 32>::splat(k);
        let lane = if k < 32 { b32[k as usize] } else { 0 };
        assert_eq!(swizzle_dyn_32(b32, idxs), Simd::splat(lane));
    }
}

#[test]
fn the_lookups_in_tables_of_16_bytes() {
    let table = bytes::<16>();
    let idxs = Simd::from_array([0u8, 15, 16, 31, 127, 128, 255, 5, 0, 0, 0, 0, 0, 0, 0, 1]);
    let r = table_lookup_16(table, idxs).to_array();
    assert_eq!(r[0], table[0]);
    assert_eq!(r[1], table[15]);
    assert_eq!(r[2], table[0]);
    assert_eq!(r[3], table[15]);
    assert_eq!(r[4], table[15]);
    assert_eq!(r[5], 0);
    assert_eq!(r[6], 0);
    assert_eq!(r[7], table[5]);
    assert_eq!(r[15], table[1]);

    assert_eq!(
        zeroing_idxs(Simd::from_array([0u8, 3, 4, 200])).to_array(),
        [0, 3, 255, 255]
    );

    let wide = bytes::<32>();
    let low = broadcast_half_32(wide, false);
    let high = broadcast_half_32(wide, true);
    for i in 0..32 {
        assert_eq!(low[i], wide[i % 16]);
        assert_eq!(high[i], wide[i % 16 + 16]);
    }
    let idxs = indices::<32>(3);
    let looked = half_lookup_32(wide, idxs);
    for i in 0..32 {
        let k = idxs[i];
        let lane = if k >= 128 { 0 } else { wide[16 * (i / 16) + (k % 16) as usize] };
        assert_eq!(looked[i], lane);
    }
    let blended = blend_32(low, high, idxs);
    for i in 0..32 {
        assert_eq!(blended[i], if idxs[i] >= 128 { high[i] } else { low[i] });
    }
    let shifted = shift_left_lanes(idxs, 3);
    for i in 0..32 {
        assert_eq!(shifted[i], idxs[i] << 3);
    }
}
