//! The arithmetic and bitwise operators on vectors of integers. Each works
//! lane by lane; sums, differences and products wrap.

use crate::element::{
    clamped, division_is_defined, shift_overflows, truncated_quotient, wrapped, Int, SInt,
};
use crate::vector::{lemma_simd_ext_equal, lemma_simd_len, Simd};
use vstd::prelude::*;
use vstd::std_specs::ops::{
    AddSpecImpl, BitAndSpecImpl, BitOrSpecImpl, BitXorSpecImpl, DivSpecImpl, MulSpecImpl,
    NegSpecImpl, NotSpecImpl, RemSpecImpl, ShlSpecImpl, ShrSpecImpl, SubSpecImpl,
};

verus! {

broadcast use lemma_simd_len;

/// An operation on two lanes.
#[derive(Clone, Copy)]
pub enum LaneOp {
    /// The sum, wrapped into the range of the lane type.
    WrappingAdd,
    /// The difference, wrapped into the range of the lane type.
    WrappingSub,
    /// The product, wrapped into the range of the lane type.
    WrappingMul,
    /// The sum, clamped to the range of the lane type.
    SaturatingAdd,
    /// The difference, clamped to the range of the lane type.
    SaturatingSub,
    /// The bitwise "and".
    And,
    /// The bitwise "or".
    Or,
    /// The bitwise "xor".
    Xor,
}

impl LaneOp {
    /// Whether `r` is the result of the operation on `a` and `b`.
    pub open spec fn gives<T: Int>(self, a: T, b: T, r: T) -> bool {
        match self {
            LaneOp::WrappingAdd => r.value() == wrapped(
                a.value() + b.value(),
                T::least(),
                T::greatest(),
            ),
            LaneOp::WrappingSub => r.value() == wrapped(
                a.value() - b.value(),
                T::least(),
                T::greatest(),
            ),
            LaneOp::WrappingMul => r.value() == wrapped(
                a.value() * b.value(),
                T::least(),
                T::greatest(),
            ),
            LaneOp::SaturatingAdd => r.value() == clamped(
                a.value() + b.value(),
                T::least(),
                T::greatest(),
            ),
            LaneOp::SaturatingSub => r.value() == clamped(
                a.value() - b.value(),
                T::least(),
                T::greatest(),
            ),
            LaneOp::And => r == a.bit_and(b),
            LaneOp::Or => r == a.bit_or(b),
            LaneOp::Xor => r == a.bit_xor(b),
        }
    }

    /// The result of the operation on two lanes.
    pub fn apply<T: Int>(self, a: T, b: T) -> (r: T)
        ensures
            self.gives(a, b, r),
    {
        match self {
            LaneOp::WrappingAdd => a.lane_wrapping_add(b),
            LaneOp::WrappingSub => a.lane_wrapping_sub(b),
            LaneOp::WrappingMul => a.lane_wrapping_mul(b),
            LaneOp::SaturatingAdd => a.lane_saturating_add(b),
            LaneOp::SaturatingSub => a.lane_saturating_sub(b),
            LaneOp::And => a.lane_and(b),
            LaneOp::Or => a.lane_or(b),
            LaneOp::Xor => a.lane_xor(b),
        }
    }
}

/// Whether each lane of `r` is the result of `op` on the lanes of `a` and
/// `b`.
pub open spec fn lanewise<T: Int>(op: LaneOp, a: Seq<T>, b: Seq<T>, r: Seq<T>) -> bool {
    &&& r.len() == a.len()
    &&& forall|i: int| 0 <= i < a.len() ==> op.gives(a[i], b[i], #[trigger] r[i])
}

/// The result of an operation on two vectors is determined, lane by lane.
pub proof fn lemma_lanewise_unique<T: Int>(op: LaneOp, a: Seq<T>, b: Seq<T>, r: Seq<T>, s: Seq<T>)
    requires
        lanewise(op, a, b, r),
        lanewise(op, a, b, s),
    ensures
        r == s,
{
    assert forall|i: int| 0 <= i < a.len() implies r[i] == s[i] by {
        assert(op.gives(a[i], b[i], r[i]));
        assert(op.gives(a[i], b[i], s[i]));
        T::lemma_value(r[i], s[i]);
    }
    assert(r =~= s);
}

impl<T: Int, const N: usize> Simd<T, N> {
    /// The vector that `op` makes of `self` and `rhs`, lane by lane.
    pub open spec fn combined(self, rhs: Self, op: LaneOp) -> Self {
        choose|r: Self| lanewise(op, self@, rhs@, r@)
    }

    /// The vector that `op` makes of `self` and `rhs`, lane by lane.
    pub fn combine(self, rhs: Self, op: LaneOp) -> (r: Self)
        ensures
            lanewise(op, self@, rhs@, r@),
            r == self.combined(rhs, op),
    {
        let mut lanes = self.to_array();
        let mut i: usize = 0;
        while i < N
            invariant
                i <= N,
                lanes@.len() == N,
                forall|j: int| 0 <= j < i ==> op.gives(self@[j], rhs@[j], #[trigger] lanes@[j]),
                forall|j: int| i <= j < N ==> lanes@[j] == self@[j],
            decreases N - i,
        {
            lanes[i] = op.apply(self.lane(i), rhs.lane(i));
            i += 1;
        }
        let r = Simd::from_array(lanes);
        proof {
            let chosen = self.combined(rhs, op);
            lemma_lanewise_unique(op, self@, rhs@, r@, chosen@);
            lemma_simd_ext_equal(r, chosen);
        }
        r
    }

    /// The vector whose lanes are the bitwise complements of the lanes of
    /// `self`.
    pub open spec fn complemented(self) -> Self {
        choose|r: Self| r@ == Seq::new(N as nat, |i: int| self@[i].bit_not())
    }

    /// The vector whose lanes are those of `self` with the opposite sign,
    /// wrapped into the range of the lane type.
    pub open spec fn negated(self) -> Self {
        choose|r: Self|
            r@.len() == N && forall|i: int|
                0 <= i < N ==> (#[trigger] r@[i]).value() == wrapped(
                    -self@[i].value(),
                    T::least(),
                    T::greatest(),
                )
    }
}

impl<T: Int, const N: usize> core::ops::Add for Simd<T, N> {
    type Output = Self;

    /// The lane-wise sum, which wraps.
    fn add(self, rhs: Self) -> (r: Self)
        ensures
            lanewise(LaneOp::WrappingAdd, self@, rhs@, r@),
    {
        self.combine(rhs, LaneOp::WrappingAdd)
    }
}

impl<T: Int, const N: usize> AddSpecImpl for Simd<T, N> {
    open spec fn obeys_add_spec() -> bool {
        true
    }

    open spec fn add_req(self, rhs: Self) -> bool {
        true
    }

    open spec fn add_spec(self, rhs: Self) -> Self {
        self.combined(rhs, LaneOp::WrappingAdd)
    }
}

impl<T: Int, const N: usize> core::ops::Sub for Simd<T, N> {
    type Output = Self;

    /// The lane-wise difference, which wraps.
    fn sub(self, rhs: Self) -> (r: Self)
        ensures
            lanewise(LaneOp::WrappingSub, self@, rhs@, r@),
    {
        self.combine(rhs, LaneOp::WrappingSub)
    }
}

impl<T: Int, const N: usize> SubSpecImpl for Simd<T, N> {
    open spec fn obeys_sub_spec() -> bool {
        true
    }

    open spec fn sub_req(self, rhs: Self) -> bool {
        true
    }

    open spec fn sub_spec(self, rhs: Self) -> Self {
        self.combined(rhs, LaneOp::WrappingSub)
    }
}

impl<T: Int, const N: usize> core::ops::Mul for Simd<T, N> {
    type Output = Self;

    /// The lane-wise product, which wraps.
    fn mul(self, rhs: Self) -> (r: Self)
        ensures
            lanewise(LaneOp::WrappingMul, self@, rhs@, r@),
    {
        self.combine(rhs, LaneOp::WrappingMul)
    }
}

impl<T: Int, const N: usize> MulSpecImpl for Simd<T, N> {
    open spec fn obeys_mul_spec() -> bool {
        true
    }

    open spec fn mul_req(self, rhs: Self) -> bool {
        true
    }

    open spec fn mul_spec(self, rhs: Self) -> Self {
        self.combined(rhs, LaneOp::WrappingMul)
    }
}

impl<T: Int, const N: usize> core::ops::BitAnd for Simd<T, N> {
    type Output = Self;

    /// The lane-wise bitwise "and".
    fn bitand(self, rhs: Self) -> (r: Self)
        ensures
            lanewise(LaneOp::And, self@, rhs@, r@),
    {
        self.combine(rhs, LaneOp::And)
    }
}

impl<T: Int, const N: usize> BitAndSpecImpl for Simd<T, N> {
    open spec fn obeys_bitand_spec() -> bool {
        true
    }

    open spec fn bitand_req(self, rhs: Self) -> bool {
        true
    }

    open spec fn bitand_spec(self, rhs: Self) -> Self {
        self.combined(rhs, LaneOp::And)
    }
}

impl<T: Int, const N: usize> core::ops::BitOr for Simd<T, N> {
    type Output = Self;

    /// The lane-wise bitwise "or".
    fn bitor(self, rhs: Self) -> (r: Self)
        ensures
            lanewise(LaneOp::Or, self@, rhs@, r@),
    {
        self.combine(rhs, LaneOp::Or)
    }
}

impl<T: Int, const N: usize> BitOrSpecImpl for Simd<T, N> {
    open spec fn obeys_bitor_spec() -> bool {
        true
    }

    open spec fn bitor_req(self, rhs: Self) -> bool {
        true
    }

    open spec fn bitor_spec(self, rhs: Self) -> Self {
        self.combined(rhs, LaneOp::Or)
    }
}

impl<T: Int, const N: usize> core::ops::BitXor for Simd<T, N> {
    type Output = Self;

    /// The lane-wise bitwise "xor".
    fn bitxor(self, rhs: Self) -> (r: Self)
        ensures
            lanewise(LaneOp::Xor, self@, rhs@, r@),
    {
        self.combine(rhs, LaneOp::Xor)
    }
}

impl<T: Int, const N: usize> BitXorSpecImpl for Simd<T, N> {
    open spec fn obeys_bitxor_spec() -> bool {
        true
    }

    open spec fn bitxor_req(self, rhs: Self) -> bool {
        true
    }

    open spec fn bitxor_spec(self, rhs: Self) -> Self {
        self.combined(rhs, LaneOp::Xor)
    }
}

impl<T: Int, const N: usize> core::ops::Not for Simd<T, N> {
    type Output = Self;

    /// The lane-wise bitwise complement.
    fn not(self) -> (r: Self)
        ensures
            r@ == Seq::new(N as nat, |i: int| self@[i].bit_not()),
    {
        let mut lanes = self.to_array();
        let mut i: usize = 0;
        while i < N
            invariant
                i <= N,
                lanes@.len() == N,
                forall|j: int| 0 <= j < i ==> lanes@[j] == self@[j].bit_not(),
                forall|j: int| i <= j < N ==> lanes@[j] == self@[j],
            decreases N - i,
        {
            lanes[i] = self.lane(i).lane_not();
            i += 1;
        }
        let r = Simd::from_array(lanes);
        assert(r@ =~= Seq::new(N as nat, |i: int| self@[i].bit_not()));
        proof {
            lemma_simd_ext_equal(r, self.complemented());
        }
        r
    }
}

impl<T: Int, const N: usize> NotSpecImpl for Simd<T, N> {
    open spec fn obeys_not_spec() -> bool {
        true
    }

    open spec fn not_req(self) -> bool {
        true
    }

    open spec fn not_spec(self) -> Self {
        self.complemented()
    }
}

impl<T: SInt, const N: usize> core::ops::Neg for Simd<T, N> {
    type Output = Self;

    /// The lane-wise negation, which wraps: the least value is its own
    /// negation.
    fn neg(self) -> (r: Self)
        ensures
            r@.len() == N,
            forall|i: int|
                0 <= i < N ==> (#[trigger] r@[i]).value() == wrapped(
                    -self@[i].value(),
                    T::least(),
                    T::greatest(),
                ),
    {
        let zero = Self::splat(T::lane_zero());
        let r = zero.combine(self, LaneOp::WrappingSub);
        proof {
            let chosen = self.negated();
            assert forall|i: int| 0 <= i < N implies (#[trigger] r@[i]).value() == wrapped(
                -self@[i].value(),
                T::least(),
                T::greatest(),
            ) by {
                assert(LaneOp::WrappingSub.gives(zero@[i], self@[i], r@[i]));
            }
            assert forall|i: int| 0 <= i < N implies r@[i] == chosen@[i] by {
                T::lemma_value(r@[i], chosen@[i]);
            }
            assert(r@ =~= chosen@);
            lemma_simd_ext_equal(r, chosen);
        }
        r
    }
}

impl<T: SInt, const N: usize> NegSpecImpl for Simd<T, N> {
    open spec fn obeys_neg_spec() -> bool {
        true
    }

    open spec fn neg_req(self) -> bool {
        true
    }

    open spec fn neg_spec(self) -> Self {
        self.negated()
    }
}

/// Whether `rhs` cannot be the number of bits by which a lane of its type is
/// shifted: it is negative, or not less than the width of the type.
pub fn invalid_shift_rhs<T: Int>(rhs: T) -> (r: bool)
    ensures
        r == shift_overflows(rhs.value(), T::bits()),
{
    proof {
        T::lemma_range();
        T::lemma_width();
    }
    let bits_in_type = T::lane_from_index(T::lane_bits() as usize);
    rhs.lane_lt(T::lane_zero()) || bits_in_type.lane_le(rhs)
}

/// A division or a shift of two lanes, which is not defined for every pair
/// of lanes.
#[derive(Clone, Copy)]
pub enum PartialOp {
    /// The quotient, rounded towards zero.
    Div,
    /// The remainder of the division that rounds towards zero.
    Rem,
    /// The shift to the left.
    Shl,
    /// The shift to the right.
    Shr,
}

impl PartialOp {
    /// Whether the operation is defined on `a` and `b`: the divisor is not
    /// zero and the quotient fits the type, or the shift is not negative and
    /// less than the width of the type.
    pub open spec fn defined<T: Int>(self, a: T, b: T) -> bool {
        match self {
            PartialOp::Div | PartialOp::Rem => division_is_defined(
                a.value(),
                b.value(),
                T::least(),
            ),
            PartialOp::Shl | PartialOp::Shr => !shift_overflows(b.value(), T::bits()),
        }
    }

    /// Whether `r` is the result of the operation on `a` and `b`.
    pub open spec fn gives<T: Int>(self, a: T, b: T, r: T) -> bool {
        match self {
            PartialOp::Div => r.value() == truncated_quotient(a.value(), b.value()),
            PartialOp::Rem => r.value() == a.value() - b.value() * truncated_quotient(
                a.value(),
                b.value(),
            ),
            PartialOp::Shl => r == a.shifted_left(b),
            PartialOp::Shr => r == a.shifted_right(b),
        }
    }

    /// Whether the operation is defined on two lanes.
    pub fn is_defined<T: Int>(self, a: T, b: T) -> (r: bool)
        ensures
            r == self.defined(a, b),
    {
        match self {
            PartialOp::Div | PartialOp::Rem => {
                proof {
                    T::lemma_range();
                }
                let zero = T::lane_zero();
                let least = T::lane_min();
                if b.lane_eq(zero) {
                    false
                } else if least.lane_lt(zero) {
                    // A signed type: the least value has no negation.
                    let minus_one = zero.lane_wrapping_sub(T::lane_one());
                    proof {
                        crate::element::lemma_wrapped_once(-1, T::least(), T::greatest());
                    }
                    !(a.lane_eq(least) && b.lane_eq(minus_one))
                } else {
                    true
                }
            },
            PartialOp::Shl | PartialOp::Shr => !invalid_shift_rhs(b),
        }
    }

    /// The result of the operation on two lanes on which it is defined.
    pub fn apply<T: Int>(self, a: T, b: T) -> (r: T)
        requires
            self.defined(a, b),
        ensures
            self.gives(a, b, r),
    {
        match self {
            PartialOp::Div => a.lane_div(b),
            PartialOp::Rem => a.lane_rem(b),
            PartialOp::Shl => a.lane_shl(b),
            PartialOp::Shr => a.lane_shr(b),
        }
    }
}

/// Whether `op` is defined on every pair of lanes of `a` and `b`.
pub open spec fn defined_lanewise<T: Int>(op: PartialOp, a: Seq<T>, b: Seq<T>) -> bool {
    forall|i: int| 0 <= i < a.len() ==> op.defined(#[trigger] a[i], b[i])
}

/// Whether each lane of `r` is the result of `op` on the lanes of `a` and
/// `b`.
pub open spec fn partial_lanewise<T: Int>(op: PartialOp, a: Seq<T>, b: Seq<T>, r: Seq<T>) -> bool {
    &&& r.len() == a.len()
    &&& forall|i: int| 0 <= i < a.len() ==> op.gives(a[i], b[i], #[trigger] r[i])
}

impl<T: Int, const N: usize> Simd<T, N> {
    /// The vector that `op` makes of `self` and `rhs`, lane by lane, where
    /// it is defined on every pair of lanes.
    pub open spec fn partially_combined(self, rhs: Self, op: PartialOp) -> Self {
        choose|r: Self| partial_lanewise(op, self@, rhs@, r@)
    }

    /// Whether `op` is defined on every pair of lanes of `self` and `rhs`.
    pub fn is_defined_lanewise(self, rhs: Self, op: PartialOp) -> (r: bool)
        ensures
            r == forall|i: int| 0 <= i < N ==> op.defined(self@[i], rhs@[i]),
    {
        let mut i: usize = 0;
        while i < N
            invariant
                i <= N,
                forall|j: int| 0 <= j < i ==> op.defined(self@[j], rhs@[j]),
            decreases N - i,
        {
            if !op.is_defined(self.lane(i), rhs.lane(i)) {
                return false;
            }
            i += 1;
        }
        true
    }

    /// The vector that `op` makes of `self` and `rhs`, lane by lane. The
    /// operation is defined on every pair of lanes.
    pub fn combine_partial(self, rhs: Self, op: PartialOp) -> (r: Self)
        requires
            forall|i: int| 0 <= i < N ==> op.defined(self@[i], rhs@[i]),
        ensures
            partial_lanewise(op, self@, rhs@, r@),
            r == self.partially_combined(rhs, op),
    {
        let mut lanes = self.to_array();
        let mut i: usize = 0;
        while i < N
            invariant
                i <= N,
                lanes@.len() == N,
                forall|j: int| 0 <= j < N ==> op.defined(self@[j], rhs@[j]),
                forall|j: int| 0 <= j < i ==> op.gives(self@[j], rhs@[j], #[trigger] lanes@[j]),
                forall|j: int| i <= j < N ==> lanes@[j] == self@[j],
            decreases N - i,
        {
            lanes[i] = op.apply(self.lane(i), rhs.lane(i));
            i += 1;
        }
        let r = Simd::from_array(lanes);
        proof {
            let chosen = self.partially_combined(rhs, op);
            assert forall|i: int| 0 <= i < N implies r@[i] == chosen@[i] by {
                assert(op.gives(self@[i], rhs@[i], r@[i]));
                assert(op.gives(self@[i], rhs@[i], chosen@[i]));
                T::lemma_value(r@[i], chosen@[i]);
            }
            assert(r@ =~= chosen@);
            lemma_simd_ext_equal(r, chosen);
        }
        r
    }
}

impl<T: Int, const N: usize> core::ops::Div for Simd<T, N> {
    type Output = Self;

    /// The lane-wise quotient, rounded towards zero. No lane of `rhs` holds
    /// zero, and no quotient is the negation of the least value.
    fn div(self, rhs: Self) -> (r: Self)
        ensures
            partial_lanewise(PartialOp::Div, self@, rhs@, r@),
    {
        self.combine_partial(rhs, PartialOp::Div)
    }
}

impl<T: Int, const N: usize> DivSpecImpl for Simd<T, N> {
    open spec fn obeys_div_spec() -> bool {
        true
    }

    open spec fn div_req(self, rhs: Self) -> bool {
        forall|i: int| 0 <= i < N ==> PartialOp::Div.defined(self@[i], rhs@[i])
    }

    open spec fn div_spec(self, rhs: Self) -> Self {
        self.partially_combined(rhs, PartialOp::Div)
    }
}

impl<T: Int, const N: usize> core::ops::Rem for Simd<T, N> {
    type Output = Self;

    /// The lane-wise remainder of the division that rounds towards zero. No
    /// lane of `rhs` holds zero, and no quotient is the negation of the least
    /// value.
    fn rem(self, rhs: Self) -> (r: Self)
        ensures
            partial_lanewise(PartialOp::Rem, self@, rhs@, r@),
    {
        self.combine_partial(rhs, PartialOp::Rem)
    }
}

impl<T: Int, const N: usize> RemSpecImpl for Simd<T, N> {
    open spec fn obeys_rem_spec() -> bool {
        true
    }

    open spec fn rem_req(self, rhs: Self) -> bool {
        forall|i: int| 0 <= i < N ==> PartialOp::Rem.defined(self@[i], rhs@[i])
    }

    open spec fn rem_spec(self, rhs: Self) -> Self {
        self.partially_combined(rhs, PartialOp::Rem)
    }
}

impl<T: Int, const N: usize> core::ops::Shl for Simd<T, N> {
    type Output = Self;

    /// The lanes shifted left by the lanes of `rhs`, each of which is not
    /// negative and less than the width of the lane type.
    fn shl(self, rhs: Self) -> (r: Self)
        ensures
            partial_lanewise(PartialOp::Shl, self@, rhs@, r@),
    {
        self.combine_partial(rhs, PartialOp::Shl)
    }
}

impl<T: Int, const N: usize> ShlSpecImpl for Simd<T, N> {
    open spec fn obeys_shl_spec() -> bool {
        true
    }

    open spec fn shl_req(self, rhs: Self) -> bool {
        forall|i: int| 0 <= i < N ==> PartialOp::Shl.defined(self@[i], rhs@[i])
    }

    open spec fn shl_spec(self, rhs: Self) -> Self {
        self.partially_combined(rhs, PartialOp::Shl)
    }
}

impl<T: Int, const N: usize> core::ops::Shr for Simd<T, N> {
    type Output = Self;

    /// The lanes shifted right by the lanes of `rhs`, each of which is not
    /// negative and less than the width of the lane type.
    fn shr(self, rhs: Self) -> (r: Self)
        ensures
            partial_lanewise(PartialOp::Shr, self@, rhs@, r@),
    {
        self.combine_partial(rhs, PartialOp::Shr)
    }
}

impl<T: Int, const N: usize> ShrSpecImpl for Simd<T, N> {
    open spec fn obeys_shr_spec() -> bool {
        true
    }

    open spec fn shr_req(self, rhs: Self) -> bool {
        forall|i: int| 0 <= i < N ==> PartialOp::Shr.defined(self@[i], rhs@[i])
    }

    open spec fn shr_spec(self, rhs: Self) -> Self {
        self.partially_combined(rhs, PartialOp::Shr)
    }
}

impl<T: Int, const N: usize> Simd<T, N> {
    /// The vector whose lanes all hold `value`.
    pub open spec fn splatted(value: T) -> Self {
        Self::with_lanes(Seq::new(N as nat, |i: int| value))
    }

    /// The vector whose lanes all hold `value`.
    fn splat_of(value: T) -> (v: Self)
        ensures
            v@ == Seq::new(N as nat, |i: int| value),
            v == Self::splatted(value),
    {
        let v = Self::splat(value);
        proof {
            lemma_simd_ext_equal(v, Self::splatted(value));
        }
        v
    }
}

impl<T: Int, const N: usize> core::ops::Add<T> for Simd<T, N> {
    type Output = Self;

    /// The lane-wise sum, which wraps, with `rhs` in every lane.
    fn add(self, rhs: T) -> (r: Self)
        ensures
            lanewise(LaneOp::WrappingAdd, self@, Seq::new(N as nat, |i: int| rhs), r@),
    {
        self.combine(Self::splat_of(rhs), LaneOp::WrappingAdd)
    }
}

impl<T: Int, const N: usize> AddSpecImpl<T> for Simd<T, N> {
    open spec fn obeys_add_spec() -> bool {
        true
    }

    open spec fn add_req(self, rhs: T) -> bool {
        true
    }

    open spec fn add_spec(self, rhs: T) -> Self {
        self.combined(Self::splatted(rhs), LaneOp::WrappingAdd)
    }
}

impl<T: Int, const N: usize> core::ops::Sub<T> for Simd<T, N> {
    type Output = Self;

    /// The lane-wise difference, which wraps, with `rhs` in every lane.
    fn sub(self, rhs: T) -> (r: Self)
        ensures
            lanewise(LaneOp::WrappingSub, self@, Seq::new(N as nat, |i: int| rhs), r@),
    {
        self.combine(Self::splat_of(rhs), LaneOp::WrappingSub)
    }
}

impl<T: Int, const N: usize> SubSpecImpl<T> for Simd<T, N> {
    open spec fn obeys_sub_spec() -> bool {
        true
    }

    open spec fn sub_req(self, rhs: T) -> bool {
        true
    }

    open spec fn sub_spec(self, rhs: T) -> Self {
        self.combined(Self::splatted(rhs), LaneOp::WrappingSub)
    }
}

impl<T: Int, const N: usize> core::ops::Mul<T> for Simd<T, N> {
    type Output = Self;

    /// The lane-wise product, which wraps, with `rhs` in every lane.
    fn mul(self, rhs: T) -> (r: Self)
        ensures
            lanewise(LaneOp::WrappingMul, self@, Seq::new(N as nat, |i: int| rhs), r@),
    {
        self.combine(Self::splat_of(rhs), LaneOp::WrappingMul)
    }
}

impl<T: Int, const N: usize> MulSpecImpl<T> for Simd<T, N> {
    open spec fn obeys_mul_spec() -> bool {
        true
    }

    open spec fn mul_req(self, rhs: T) -> bool {
        true
    }

    open spec fn mul_spec(self, rhs: T) -> Self {
        self.combined(Self::splatted(rhs), LaneOp::WrappingMul)
    }
}

impl<T: Int, const N: usize> core::ops::BitAnd<T> for Simd<T, N> {
    type Output = Self;

    /// The lane-wise bitwise "and", with `rhs` in every lane.
    fn bitand(self, rhs: T) -> (r: Self)
        ensures
            lanewise(LaneOp::And, self@, Seq::new(N as nat, |i: int| rhs), r@),
    {
        self.combine(Self::splat_of(rhs), LaneOp::And)
    }
}

impl<T: Int, const N: usize> BitAndSpecImpl<T> for Simd<T, N> {
    open spec fn obeys_bitand_spec() -> bool {
        true
    }

    open spec fn bitand_req(self, rhs: T) -> bool {
        true
    }

    open spec fn bitand_spec(self, rhs: T) -> Self {
        self.combined(Self::splatted(rhs), LaneOp::And)
    }
}

impl<T: Int, const N: usize> core::ops::BitOr<T> for Simd<T, N> {
    type Output = Self;

    /// The lane-wise bitwise "or", with `rhs` in every lane.
    fn bitor(self, rhs: T) -> (r: Self)
        ensures
            lanewise(LaneOp::Or, self@, Seq::new(N as nat, |i: int| rhs), r@),
    {
        self.combine(Self::splat_of(rhs), LaneOp::Or)
    }
}

impl<T: Int, const N: usize> BitOrSpecImpl<T> for Simd<T, N> {
    open spec fn obeys_bitor_spec() -> bool {
        true
    }

    open spec fn bitor_req(self, rhs: T) -> bool {
        true
    }

    open spec fn bitor_spec(self, rhs: T) -> Self {
        self.combined(Self::splatted(rhs), LaneOp::Or)
    }
}

impl<T: Int, const N: usize> core::ops::BitXor<T> for Simd<T, N> {
    type Output = Self;

    /// The lane-wise bitwise "xor", with `rhs` in every lane.
    fn bitxor(self, rhs: T) -> (r: Self)
        ensures
            lanewise(LaneOp::Xor, self@, Seq::new(N as nat, |i: int| rhs), r@),
    {
        self.combine(Self::splat_of(rhs), LaneOp::Xor)
    }
}

impl<T: Int, const N: usize> BitXorSpecImpl<T> for Simd<T, N> {
    open spec fn obeys_bitxor_spec() -> bool {
        true
    }

    open spec fn bitxor_req(self, rhs: T) -> bool {
        true
    }

    open spec fn bitxor_spec(self, rhs: T) -> Self {
        self.combined(Self::splatted(rhs), LaneOp::Xor)
    }
}

impl<T: Int, const N: usize> core::ops::Div<T> for Simd<T, N> {
    type Output = Self;

    /// The lane-wise quotient, with `rhs` in every lane, where it is defined
    /// on every lane.
    fn div(self, rhs: T) -> (r: Self)
        ensures
            partial_lanewise(PartialOp::Div, self@, Seq::new(N as nat, |i: int| rhs), r@),
    {
        self.combine_partial(Self::splat_of(rhs), PartialOp::Div)
    }
}

impl<T: Int, const N: usize> DivSpecImpl<T> for Simd<T, N> {
    open spec fn obeys_div_spec() -> bool {
        true
    }

    open spec fn div_req(self, rhs: T) -> bool {
        forall|i: int| 0 <= i < N ==> PartialOp::Div.defined(self@[i], rhs)
    }

    open spec fn div_spec(self, rhs: T) -> Self {
        self.partially_combined(Self::splatted(rhs), PartialOp::Div)
    }
}

impl<T: Int, const N: usize> core::ops::Rem<T> for Simd<T, N> {
    type Output = Self;

    /// The lane-wise remainder, with `rhs` in every lane, where it is defined
    /// on every lane.
    fn rem(self, rhs: T) -> (r: Self)
        ensures
            partial_lanewise(PartialOp::Rem, self@, Seq::new(N as nat, |i: int| rhs), r@),
    {
        self.combine_partial(Self::splat_of(rhs), PartialOp::Rem)
    }
}

impl<T: Int, const N: usize> RemSpecImpl<T> for Simd<T, N> {
    open spec fn obeys_rem_spec() -> bool {
        true
    }

    open spec fn rem_req(self, rhs: T) -> bool {
        forall|i: int| 0 <= i < N ==> PartialOp::Rem.defined(self@[i], rhs)
    }

    open spec fn rem_spec(self, rhs: T) -> Self {
        self.partially_combined(Self::splatted(rhs), PartialOp::Rem)
    }
}

impl<T: Int, const N: usize> core::ops::Shl<T> for Simd<T, N> {
    type Output = Self;

    /// The lane-wise shift to the left, with `rhs` in every lane, where it is defined
    /// on every lane.
    fn shl(self, rhs: T) -> (r: Self)
        ensures
            partial_lanewise(PartialOp::Shl, self@, Seq::new(N as nat, |i: int| rhs), r@),
    {
        self.combine_partial(Self::splat_of(rhs), PartialOp::Shl)
    }
}

impl<T: Int, const N: usize> ShlSpecImpl<T> for Simd<T, N> {
    open spec fn obeys_shl_spec() -> bool {
        true
    }

    open spec fn shl_req(self, rhs: T) -> bool {
        forall|i: int| 0 <= i < N ==> PartialOp::Shl.defined(self@[i], rhs)
    }

    open spec fn shl_spec(self, rhs: T) -> Self {
        self.partially_combined(Self::splatted(rhs), PartialOp::Shl)
    }
}

impl<T: Int, const N: usize> core::ops::Shr<T> for Simd<T, N> {
    type Output = Self;

    /// The lane-wise shift to the right, with `rhs` in every lane, where it is defined
    /// on every lane.
    fn shr(self, rhs: T) -> (r: Self)
        ensures
            partial_lanewise(PartialOp::Shr, self@, Seq::new(N as nat, |i: int| rhs), r@),
    {
        self.combine_partial(Self::splat_of(rhs), PartialOp::Shr)
    }
}

impl<T: Int, const N: usize> ShrSpecImpl<T> for Simd<T, N> {
    open spec fn obeys_shr_spec() -> bool {
        true
    }

    open spec fn shr_req(self, rhs: T) -> bool {
        forall|i: int| 0 <= i < N ==> PartialOp::Shr.defined(self@[i], rhs)
    }

    open spec fn shr_spec(self, rhs: T) -> Self {
        self.partially_combined(Self::splatted(rhs), PartialOp::Shr)
    }
}

} // verus!
