//! Masks as integers, one bit for each lane.
//!
//! Bit `i` of a bitmask, counted from the least significant, stands for lane
//! `i`, whatever the byte order of the target. Where lanes are packed in the
//! order of the target, [`fix_endianness`] brings the result to that form.

use crate::element::SimdElement;
use crate::masks::{lemma_mask_len, Mask};
use vstd::prelude::*;

verus! {

broadcast use lemma_mask_len;

/// Whether bit `i` of `bits` is set, counted from the least significant.
pub open spec fn bit_is_set(bits: u64, i: int) -> bool {
    0 <= i < 64 && (bits >> (i as u64)) & 1u64 == 1u64
}

/// The integer whose bit `i` is set exactly where lane `i` is set. Lanes from
/// the 64th on have no bit.
pub open spec fn bitmask_of(lanes: Seq<bool>) -> u64
    decreases lanes.len(),
{
    if lanes.len() == 0 {
        0
    } else if lanes.last() && lanes.len() <= 64 {
        bitmask_of(lanes.drop_last()) | (1u64 << ((lanes.len() - 1) as u64))
    } else {
        bitmask_of(lanes.drop_last())
    }
}

/// The `n` lanes that `bits` stands for: lane `i` is set exactly where bit
/// `i` is. Lanes from the 64th on are not set.
pub open spec fn lanes_of_bitmask(bits: u64, n: nat) -> Seq<bool> {
    Seq::new(n, |i: int| bit_is_set(bits, i))
}

proof fn lemma_bit_of_zero(j: u64)
    by (bit_vector)
    ensures
        (0u64 >> j) & 1u64 == 0u64,
{
}

proof fn lemma_bit_of_or(x: u64, k: u64, j: u64)
    by (bit_vector)
    requires
        k < 64,
        j < 64,
    ensures
        ((x | (1u64 << k)) >> j) & 1u64 == 1u64 <==> ((x >> j) & 1u64 == 1u64 || j == k),
{
}

proof fn lemma_bit_of_shifted(x: u64, k: u64, j: u64, sum: u64)
    by (bit_vector)
    requires
        k < 64,
        j < 64,
        sum == j + k,
    ensures
        ((x >> k) >> j) & 1u64 == 1u64 <==> (sum < 64 && (x >> sum) & 1u64 == 1u64),
{
}

proof fn lemma_bit_differs(a: u64, b: u64, j: u64)
    by (bit_vector)
    requires
        j < 64,
        ((a ^ b) >> j) & 1u64 == 1u64,
    ensures
        ((a >> j) & 1u64 == 1u64) != ((b >> j) & 1u64 == 1u64),
{
}

proof fn lemma_xor_is_zero(a: u64, b: u64)
    by (bit_vector)
    requires
        a ^ b == 0,
    ensures
        a == b,
{
}

/// Bit `i` of the bitmask of `lanes` is set exactly where lane `i` is.
pub proof fn lemma_bitmask_of(lanes: Seq<bool>, i: int)
    ensures
        bit_is_set(bitmask_of(lanes), i) == (0 <= i < lanes.len() && i < 64 && lanes[i]),
    decreases lanes.len(),
{
    if 0 <= i < 64 {
        if lanes.len() == 0 {
            lemma_bit_of_zero(i as u64);
        } else {
            let rest = lanes.drop_last();
            lemma_bitmask_of(rest, i);
            if lanes.last() && lanes.len() <= 64 {
                lemma_bit_of_or(bitmask_of(rest), (lanes.len() - 1) as u64, i as u64);
            }
        }
    }
}

/// Two integers with the same bits are the same integer.
pub proof fn lemma_bits_ext_equal(a: u64, b: u64)
    requires
        forall|i: int| 0 <= i < 64 ==> bit_is_set(a, i) == bit_is_set(b, i),
    ensures
        a == b,
{
    let x = a ^ b;
    if x != 0 {
        vstd::std_specs::bits::axiom_u64_trailing_zeros(x);
        let j = vstd::std_specs::bits::u64_trailing_zeros(x);
        lemma_bit_differs(a, b, j as u64);
        assert(bit_is_set(a, j as int) != bit_is_set(b, j as int));
    } else {
        lemma_xor_is_zero(a, b);
    }
}

/// `u64::reverse_bits`: the bits of `bits` in the opposite order, so that
/// bit `i` of the result is bit `63 - i` of `bits`.
#[verifier::external_body]
fn reverse_bits(bits: u64) -> (r: u64)
    ensures
        forall|i: int| 0 <= i < 64 ==> #[trigger] bit_is_set(r, i) == bit_is_set(bits, 63 - i),
{
    bits.reverse_bits()
}

/// `u16::to_ne_bytes`: the two bytes of `x` in the order in which the target
/// keeps them in memory, which is the less significant byte first or the
/// more significant byte first.
#[verifier::external_body]
fn native_bytes(x: u16) -> (bytes: [u8; 2])
    ensures
        (bytes@[0] == x % 256 && bytes@[1] == x / 256) || (bytes@[0] == x / 256 && bytes@[1] == x
            % 256),
{
    x.to_ne_bytes()
}

/// Whether the target keeps the more significant byte of an integer first.
/// Hardware that packs lanes into bits does so in the order of the target:
/// with the first lane in the most significant bit where this holds.
pub fn target_is_big_endian() -> bool {
    most_significant_byte_first(native_bytes(1))
}

/// Whether the two bytes of the number `1`, in the order in which a target
/// keeps them, begin with the more significant byte: whether the first of
/// them is zero.
pub fn most_significant_byte_first(bytes_of_one: [u8; 2]) -> (r: bool)
    ensures
        r == (bytes_of_one@[0] == 0),
{
    bytes_of_one[0] == 0
}

/// `bits` with bit `index` set.
fn with_bit(bits: u64, index: usize) -> (r: u64)
    requires
        index < 64,
    ensures
        forall|j: int| #[trigger] bit_is_set(r, j) == (bit_is_set(bits, j) || j == index),
{
    let r = bits | (1u64 << (index as u64));
    assert forall|j: int| #[trigger] bit_is_set(r, j) == (bit_is_set(bits, j) || j == index) by {
        if 0 <= j < 64 {
            lemma_bit_of_or(bits, index as u64, j as u64);
        }
    }
    r
}

/// Whether bit `index` of `bits` is set.
pub fn test_bit(bits: u64, index: usize) -> (r: bool)
    ensures
        r == bit_is_set(bits, index as int),
{
    index < 64 && (bits >> (index as u64)) & 1u64 == 1u64
}

/// The position, in a bitmask of `width` lanes packed in the order of the
/// target, of the bit that stands for lane `lane`.
pub open spec fn native_position(lane: int, width: int, msb_first: bool) -> int {
    if msb_first {
        width - 1 - lane
    } else {
        lane
    }
}

/// Brings a bitmask of `width` lanes from the order of the target, in which
/// the first lane is the most significant of the `width` bits where
/// `msb_first` holds, to the order in which bit `i` stands for lane `i`; and
/// back, the two being the same change.
pub fn fix_endianness(bits: u64, width: usize, msb_first: bool) -> (r: u64)
    requires
        1 <= width <= 64,
    ensures
        forall|j: int|
            #[trigger] bit_is_set(r, j) == if msb_first {
                0 <= j < width && bit_is_set(bits, width - 1 - j)
            } else {
                bit_is_set(bits, j)
            },
{
    if msb_first {
        let reversed = reverse_bits(bits);
        let r = reversed >> ((64 - width) as u64);
        assert forall|j: int|
            #[trigger] bit_is_set(r, j) == (0 <= j < width && bit_is_set(bits, width - 1 - j)) by {
            if 0 <= j < 64 {
                lemma_bit_of_shifted(
                    reversed,
                    (64 - width) as u64,
                    j as u64,
                    (j + 64 - width) as u64,
                );
                if j < width {
                    assert(bit_is_set(reversed, j + 64 - width) == bit_is_set(
                        bits,
                        63 - (j + 64 - width),
                    ));
                }
            }
        }
        r
    } else {
        bits
    }
}

/// The lanes of `mask` packed into bits in the order of the target: lane `i`
/// is bit `i` where `msb_first` does not hold, and bit `M - 1 - i` where it
/// does.
fn native_bitmask<T: SimdElement, const M: usize>(mask: Mask<T, M>, msb_first: bool) -> (bits: u64)
    requires
        M <= 64,
    ensures
        forall|j: int|
            #[trigger] bit_is_set(bits, j) == (0 <= j < M && mask@[native_position(
                j,
                M as int,
                msb_first,
            )]),
{
    let mut bits: u64 = 0;
    let mut i: usize = 0;
    assert forall|j: int| !(#[trigger] bit_is_set(bits, j)) by {
        if 0 <= j < 64 {
            lemma_bit_of_zero(j as u64);
        }
    }
    while i < M
        invariant
            i <= M,
            M <= 64,
            forall|j: int|
                #[trigger] bit_is_set(bits, j) == (0 <= j < M && mask@[native_position(
                    j,
                    M as int,
                    msb_first,
                )] && native_position(j, M as int, msb_first) < i),
        decreases M - i,
    {
        if mask.test(i) {
            let position = if msb_first {
                M - 1 - i
            } else {
                i
            };
            bits = with_bit(bits, position);
        }
        i += 1;
    }
    bits
}

/// The bitmask of `mask`, for a mask of at most `M` lanes, where `M` is the
/// width of an integer: the mask is widened to `M` lanes that are not set,
/// its lanes are packed in the order of the target, and the order is fixed.
pub fn to_bitmask_impl<T: SimdElement, const M: usize, const N: usize>(mask: Mask<T, N>) -> (bits:
    u64)
    requires
        N <= M,
        1 <= M <= 64,
    ensures
        bits == bitmask_of(mask@),
{
    let msb_first = target_is_big_endian();
    let resized = mask.resize::<M>(false);
    let native = native_bitmask(resized, msb_first);
    let bits = fix_endianness(native, M, msb_first);
    proof {
        assert forall|i: int| 0 <= i < 64 implies bit_is_set(bits, i) == bit_is_set(
            bitmask_of(mask@),
            i,
        ) by {
            lemma_bitmask_of(mask@, i);
            if msb_first && i < M {
                assert(bit_is_set(native, M - 1 - i) == resized@[native_position(
                    M - 1 - i,
                    M as int,
                    msb_first,
                )]);
            }
        }
        lemma_bits_ext_equal(bits, bitmask_of(mask@));
    }
    bits
}

/// The least number of bytes that hold one bit for each of `lanes` lanes.
pub fn bitmask_len(lanes: usize) -> (bytes: usize)
    ensures
        bytes == (lanes + 7) / 8,
{
    if lanes % 8 == 0 {
        lanes / 8
    } else {
        lanes / 8 + 1
    }
}

/// The lanes of at most 64 lanes come back from their bitmask.
pub proof fn lemma_bitmask_round_trip(lanes: Seq<bool>)
    requires
        lanes.len() <= 64,
    ensures
        lanes_of_bitmask(bitmask_of(lanes), lanes.len()) == lanes,
{
    assert forall|i: int| 0 <= i < lanes.len() implies lanes_of_bitmask(
        bitmask_of(lanes),
        lanes.len(),
    )[i] == lanes[i] by {
        lemma_bitmask_of(lanes, i);
    }
    assert(lanes_of_bitmask(bitmask_of(lanes), lanes.len()) =~= lanes);
}

/// A mask of at most 64 lanes that is made from the bitmask of another is
/// that other mask.
pub proof fn lemma_mask_from_own_bitmask<T: SimdElement, const N: usize>(
    mask: Mask<T, N>,
    back: Mask<T, N>,
)
    requires
        N <= 64,
        mask.wf(),
        back.wf(),
        back@ == lanes_of_bitmask(bitmask_of(mask@), N as nat),
    ensures
        back == mask,
{
    lemma_bitmask_round_trip(mask@);
    crate::masks::lemma_mask_ext_equal(back, mask);
}

/// The bitmask of the lanes that a bitmask stands for is that bitmask
/// without the bits that have no lane.
pub proof fn lemma_bitmask_of_lanes(bits: u64, n: nat, i: int)
    ensures
        bit_is_set(bitmask_of(lanes_of_bitmask(bits, n)), i) == (i < n && bit_is_set(bits, i)),
{
    lemma_bitmask_of(lanes_of_bitmask(bits, n), i);
}

/// The bitmask of a mask whose first lane alone is set is `1`.
pub proof fn lemma_bitmask_of_first_lane(lanes: Seq<bool>)
    requires
        lanes.len() >= 1,
        lanes[0],
        forall|i: int| 1 <= i < lanes.len() ==> !lanes[i],
    ensures
        bitmask_of(lanes) == 1,
{
    assert forall|i: int| 0 <= i < 64 implies bit_is_set(bitmask_of(lanes), i) == bit_is_set(
        1u64,
        i,
    ) by {
        lemma_bitmask_of(lanes, i);
        lemma_bit_of_one(i as u64);
    }
    lemma_bits_ext_equal(bitmask_of(lanes), 1);
}

proof fn lemma_bit_of_one(j: u64)
    by (bit_vector)
    requires
        j < 64,
    ensures
        ((1u64 >> j) & 1u64 == 1u64) <==> j == 0,
{
}

proof fn lemma_low_bits_bound(x: u64, width: u64)
    by (bit_vector)
    requires
        width < 64,
        x >> width == 0,
    ensures
        x < (1u64 << width),
{
}

/// A bitmask whose bits from `width` on are clear is less than `2^width`.
pub proof fn lemma_bitmask_bound(bits: u64, width: int)
    requires
        0 <= width < 64,
        forall|i: int| width <= i < 64 ==> !bit_is_set(bits, i),
    ensures
        bits < (1u64 << (width as u64)),
{
    let high = bits >> (width as u64);
    assert forall|i: int| 0 <= i < 64 implies bit_is_set(high, i) == bit_is_set(0u64, i) by {
        lemma_bit_of_shifted(bits, width as u64, i as u64, (i + width) as u64);
        lemma_bit_of_zero(i as u64);
        if i + width < 64 {
            assert(!bit_is_set(bits, i + width));
        }
    }
    lemma_bits_ext_equal(high, 0);
    lemma_low_bits_bound(bits, width as u64);
}

/// A mask that has a bitmask in an integer just wide enough for its lanes.
pub trait ToBitMask: Sized {
    /// The integer type of the bitmask.
    type BitMask;

    /// The bitmask of the mask: bit `i`, counted from the least significant,
    /// is set exactly where lane `i` is.
    fn to_bitmask_integer(self) -> Self::BitMask;

    /// The mask that `bitmask` stands for: lane `i` is set exactly where bit
    /// `i` is.
    fn from_bitmask_integer(bitmask: Self::BitMask) -> Self;
}

impl<T: SimdElement> ToBitMask for Mask<T, 8> {
    type BitMask = u8;

    fn to_bitmask_integer(self) -> (bits: u8)
        ensures
            bits == bitmask_of(self@),
    {
        let bits = Mask::to_bitmask(self);
        proof {
            assert forall|i: int| 8 <= i < 64 implies !bit_is_set(bits, i) by {
                lemma_bitmask_of(self@, i);
            }
            lemma_bitmask_bound(bits, 8);
            assert(1u64 << 8u64 == 256) by (bit_vector);
        }
        bits as u8
    }

    fn from_bitmask_integer(bitmask: u8) -> (m: Self)
        ensures
            m@ == lanes_of_bitmask(bitmask as u64, 8),
    {
        Mask::from_bitmask(bitmask as u64)
    }
}

impl<T: SimdElement> ToBitMask for Mask<T, 16> {
    type BitMask = u16;

    fn to_bitmask_integer(self) -> (bits: u16)
        ensures
            bits == bitmask_of(self@),
    {
        let bits = Mask::to_bitmask(self);
        proof {
            assert forall|i: int| 16 <= i < 64 implies !bit_is_set(bits, i) by {
                lemma_bitmask_of(self@, i);
            }
            lemma_bitmask_bound(bits, 16);
            assert(1u64 << 16u64 == 0x1_0000) by (bit_vector);
        }
        bits as u16
    }

    fn from_bitmask_integer(bitmask: u16) -> (m: Self)
        ensures
            m@ == lanes_of_bitmask(bitmask as u64, 16),
    {
        Mask::from_bitmask(bitmask as u64)
    }
}

impl<T: SimdElement> ToBitMask for Mask<T, 32> {
    type BitMask = u32;

    fn to_bitmask_integer(self) -> (bits: u32)
        ensures
            bits == bitmask_of(self@),
    {
        let bits = Mask::to_bitmask(self);
        proof {
            assert forall|i: int| 32 <= i < 64 implies !bit_is_set(bits, i) by {
                lemma_bitmask_of(self@, i);
            }
            lemma_bitmask_bound(bits, 32);
            assert(1u64 << 32u64 == 0x1_0000_0000) by (bit_vector);
        }
        bits as u32
    }

    fn from_bitmask_integer(bitmask: u32) -> (m: Self)
        ensures
            m@ == lanes_of_bitmask(bitmask as u64, 32),
    {
        Mask::from_bitmask(bitmask as u64)
    }
}

impl<T: SimdElement> ToBitMask for Mask<T, 64> {
    type BitMask = u64;

    fn to_bitmask_integer(self) -> (bits: u64)
        ensures
            bits == bitmask_of(self@),
    {
        Mask::to_bitmask(self)
    }

    fn from_bitmask_integer(bitmask: u64) -> (m: Self)
        ensures
            m@ == lanes_of_bitmask(bitmask, 64),
    {
        Mask::from_bitmask(bitmask)
    }
}

/// Whether `bytes` hold one bit for each lane: bit `i % 8` of byte `i / 8`,
/// counted from the least significant, is set exactly where lane `i` is, and
/// the bits that have no lane are clear.
pub open spec fn is_bitmask_array(bytes: Seq<u8>, lanes: Seq<bool>) -> bool {
    forall|b: int, k: int|
        0 <= b < bytes.len() && 0 <= k < 8 ==> #[trigger] bit_is_set(bytes[b] as u64, k) == (8 * b
            + k < lanes.len() && lanes[8 * b + k])
}

/// The lanes that `bytes` stand for: lane `i` is set exactly where bit
/// `i % 8` of byte `i / 8` is.
pub open spec fn lanes_of_bitmask_array(bytes: Seq<u8>, n: nat) -> Seq<bool> {
    Seq::new(n, |i: int| i / 8 < bytes.len() && bit_is_set(bytes[i / 8] as u64, i % 8))
}

proof fn lemma_byte_with_bit(byte: u8, k: u64, j: u64)
    by (bit_vector)
    requires
        k < 8,
        j < 64,
    ensures
        (((byte | (1u8 << k)) as u64) >> j) & 1u64 == 1u64 <==> (((byte as u64) >> j) & 1u64
            == 1u64 || j == k),
{
}

impl<T: SimdElement, const N: usize> Mask<T, N> {
    /// The bitmask of the mask in bytes: bit `i % 8` of byte `i / 8` is set
    /// exactly where lane `i` is. There are just as many bytes as the lanes
    /// need.
    pub fn to_bitmask_array<const BYTES: usize>(self) -> (bytes: [u8; BYTES])
        requires
            BYTES == (N + 7) / 8,
        ensures
            is_bitmask_array(bytes@, self@),
    {
        let mut bytes = [0u8;BYTES];
        let mut i: usize = 0;
        assert forall|b: int, k: int| 0 <= b < BYTES && 0 <= k < 8 implies !(#[trigger] bit_is_set(
            bytes@[b] as u64,
            k,
        )) by {
            lemma_bit_of_zero(k as u64);
        }
        while i < N
            invariant
                i <= N,
                BYTES == (N + 7) / 8,
                bytes@.len() == BYTES,
                forall|b: int, k: int|
                    0 <= b < BYTES && 0 <= k < 8 ==> #[trigger] bit_is_set(bytes@[b] as u64, k)
                        == (8 * b + k < i && self@[8 * b + k]),
            decreases N - i,
        {
            if self.test(i) {
                let ghost before = bytes@;
                let byte = bytes[i / 8];
                let k: u8 = (i % 8) as u8;
                bytes[i / 8] = byte | (1u8 << k);
                assert forall|b: int, j: int| 0 <= b < BYTES && 0 <= j < 8 implies #[trigger] bit_is_set(
                    bytes@[b] as u64,
                    j,
                ) == (8 * b + j < i + 1 && self@[8 * b + j]) by {
                    assert(bit_is_set(before[b] as u64, j) == (8 * b + j < i && self@[8 * b + j]));
                    if b == i / 8 {
                        lemma_byte_with_bit(byte, k as u64, j as u64);
                    }
                }
            }
            i += 1;
        }
        bytes
    }

    /// The mask that `bytes` stand for: lane `i` is set exactly where bit
    /// `i % 8` of byte `i / 8` is. Bits that have no lane are ignored.
    pub fn from_bitmask_array<const BYTES: usize>(bytes: [u8; BYTES]) -> (m: Self)
        requires
            BYTES == (N + 7) / 8,
        ensures
            m@ == lanes_of_bitmask_array(bytes@, N as nat),
    {
        let mut lanes = [false;N];
        let mut i: usize = 0;
        while i < N
            invariant
                i <= N,
                BYTES == (N + 7) / 8,
                lanes@.len() == N,
                forall|j: int|
                    0 <= j < i ==> lanes@[j] == bit_is_set(bytes@[j / 8] as u64, j % 8),
            decreases N - i,
        {
            lanes[i] = test_bit(bytes[i / 8] as u64, i % 8);
            i += 1;
        }
        let m = Mask::from_array(lanes);
        assert(m@ =~= lanes_of_bitmask_array(bytes@, N as nat));
        m
    }
}

/// The lanes come back from their bitmask in bytes.
pub proof fn lemma_bitmask_array_round_trip(bytes: Seq<u8>, lanes: Seq<bool>)
    requires
        bytes.len() == (lanes.len() + 7) / 8,
        is_bitmask_array(bytes, lanes),
    ensures
        lanes_of_bitmask_array(bytes, lanes.len()) == lanes,
{
    assert forall|i: int| 0 <= i < lanes.len() implies lanes_of_bitmask_array(
        bytes,
        lanes.len(),
    )[i] == lanes[i] by {
        assert(bit_is_set(bytes[i / 8] as u64, i % 8) == (8 * (i / 8) + i % 8 < lanes.len()
            && lanes[8 * (i / 8) + i % 8]));
    }
    assert(lanes_of_bitmask_array(bytes, lanes.len()) =~= lanes);
}

/// A mask that has a bitmask in an array of bytes just long enough for its
/// lanes.
pub trait ToBitMaskArray: Sized {
    /// The array of the bytes of the bitmask.
    type BitMaskArray;

    /// The bitmask of the mask in bytes: bit `i % 8` of byte `i / 8` is set
    /// exactly where lane `i` is.
    fn to_bitmask_bytes(self) -> Self::BitMaskArray;

    /// The mask that `bitmask` stands for.
    fn from_bitmask_bytes(bitmask: Self::BitMaskArray) -> Self;
}

impl<T: SimdElement> ToBitMaskArray for Mask<T, 1> {
    type BitMaskArray = [u8; 1];

    fn to_bitmask_bytes(self) -> (bytes: [u8; 1])
        ensures
            is_bitmask_array(bytes@, self@),
    {
        self.to_bitmask_array::<1>()
    }

    fn from_bitmask_bytes(bitmask: [u8; 1]) -> (m: Self)
        ensures
            m@ == lanes_of_bitmask_array(bitmask@, 1),
    {
        Mask::from_bitmask_array::<1>(bitmask)
    }
}

impl<T: SimdElement> ToBitMaskArray for Mask<T, 2> {
    type BitMaskArray = [u8; 1];

    fn to_bitmask_bytes(self) -> (bytes: [u8; 1])
        ensures
            is_bitmask_array(bytes@, self@),
    {
        self.to_bitmask_array::<1>()
    }

    fn from_bitmask_bytes(bitmask: [u8; 1]) -> (m: Self)
        ensures
            m@ == lanes_of_bitmask_array(bitmask@, 2),
    {
        Mask::from_bitmask_array::<1>(bitmask)
    }
}

impl<T: SimdElement> ToBitMaskArray for Mask<T, 4> {
    type BitMaskArray = [u8; 1];

    fn to_bitmask_bytes(self) -> (bytes: [u8; 1])
        ensures
            is_bitmask_array(bytes@, self@),
    {
        self.to_bitmask_array::<1>()
    }

    fn from_bitmask_bytes(bitmask: [u8; 1]) -> (m: Self)
        ensures
            m@ == lanes_of_bitmask_array(bitmask@, 4),
    {
        Mask::from_bitmask_array::<1>(bitmask)
    }
}

impl<T: SimdElement> ToBitMaskArray for Mask<T, 8> {
    type BitMaskArray = [u8; 1];

    fn to_bitmask_bytes(self) -> (bytes: [u8; 1])
        ensures
            is_bitmask_array(bytes@, self@),
    {
        self.to_bitmask_array::<1>()
    }

    fn from_bitmask_bytes(bitmask: [u8; 1]) -> (m: Self)
        ensures
            m@ == lanes_of_bitmask_array(bitmask@, 8),
    {
        Mask::from_bitmask_array::<1>(bitmask)
    }
}

impl<T: SimdElement> ToBitMaskArray for Mask<T, 16> {
    type BitMaskArray = [u8; 2];

    fn to_bitmask_bytes(self) -> (bytes: [u8; 2])
        ensures
            is_bitmask_array(bytes@, self@),
    {
        self.to_bitmask_array::<2>()
    }

    fn from_bitmask_bytes(bitmask: [u8; 2]) -> (m: Self)
        ensures
            m@ == lanes_of_bitmask_array(bitmask@, 16),
    {
        Mask::from_bitmask_array::<2>(bitmask)
    }
}

impl<T: SimdElement> ToBitMaskArray for Mask<T, 32> {
    type BitMaskArray = [u8; 4];

    fn to_bitmask_bytes(self) -> (bytes: [u8; 4])
        ensures
            is_bitmask_array(bytes@, self@),
    {
        self.to_bitmask_array::<4>()
    }

    fn from_bitmask_bytes(bitmask: [u8; 4]) -> (m: Self)
        ensures
            m@ == lanes_of_bitmask_array(bitmask@, 32),
    {
        Mask::from_bitmask_array::<4>(bitmask)
    }
}

impl<T: SimdElement> ToBitMaskArray for Mask<T, 64> {
    type BitMaskArray = [u8; 8];

    fn to_bitmask_bytes(self) -> (bytes: [u8; 8])
        ensures
            is_bitmask_array(bytes@, self@),
    {
        self.to_bitmask_array::<8>()
    }

    fn from_bitmask_bytes(bitmask: [u8; 8]) -> (m: Self)
        ensures
            m@ == lanes_of_bitmask_array(bitmask@, 64),
    {
        Mask::from_bitmask_array::<8>(bitmask)
    }
}

} // verus!
