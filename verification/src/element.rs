//! The scalar types that a vector lane can hold, and the per-lane operations
//! that the vector operations are built from.
//!
//! Every lane type is a fixed-width integer. Its meaning is the mathematical
//! integer that [`Int::value`] gives; arithmetic is stated over that integer,
//! wrapped or clamped into the range of the type.

use vstd::arithmetic::div_mod::{
    lemma_fundamental_div_mod, lemma_mod_add_multiples_vanish, lemma_mod_multiples_vanish,
    lemma_mod_sub_multiples_vanish, lemma_small_mod,
};
use vstd::prelude::*;

mod sealed;
mod signed;
mod unsigned;

verus! {

/// `v` brought into `min ..= max` by adding or subtracting a multiple of the
/// size of that range: what two's-complement arithmetic keeps of `v`.
pub open spec fn wrapped(v: int, min: int, max: int) -> int {
    min + (v - min) % (max - min + 1)
}

/// `v` brought into `min ..= max` by replacing it with the nearer bound.
pub open spec fn clamped(v: int, min: int, max: int) -> int {
    if v < min {
        min
    } else if v > max {
        max
    } else {
        v
    }
}

/// A value that overshoots the range by less than its size is wrapped by one
/// step.
pub proof fn lemma_wrapped_once(v: int, min: int, max: int)
    requires
        min <= max,
    ensures
        min <= v <= max ==> wrapped(v, min, max) == v,
        max < v <= max + (max - min + 1) ==> wrapped(v, min, max) == v - (max - min + 1),
        min - (max - min + 1) <= v < min ==> wrapped(v, min, max) == v + (max - min + 1),
{
    let m = max - min + 1;
    if min <= v <= max {
        lemma_small_mod((v - min) as nat, m as nat);
    } else if max < v <= max + m {
        lemma_mod_sub_multiples_vanish(v - min, m);
        lemma_small_mod((v - min - m) as nat, m as nat);
    } else if min - m <= v < min {
        lemma_mod_add_multiples_vanish(v - min, m);
        lemma_small_mod((v - min + m) as nat, m as nat);
    }
}

/// What `wrapped` keeps of `v` is its remainder by the size of the range,
/// taken as a negative number where it lies above `max`.
pub proof fn lemma_wrapped_remainder(v: int, min: int, max: int)
    requires
        min <= 0 <= max,
    ensures
        wrapped(v, min, max) == if v % (max - min + 1) > max {
            v % (max - min + 1) - (max - min + 1)
        } else {
            v % (max - min + 1)
        },
{
    let m = max - min + 1;
    let r = v % m;
    lemma_fundamental_div_mod(v, m);
    lemma_mod_multiples_vanish(v / m, r - min, m);
    assert(v - min == m * (v / m) + (r - min));
    if r > max {
        lemma_mod_sub_multiples_vanish(r - min, m);
        lemma_small_mod((r - min - m) as nat, m as nat);
    } else {
        lemma_small_mod((r - min) as nat, m as nat);
    }
}

/// Whether `rhs` cannot be the number of bits by which an integer of `bits`
/// bits is shifted.
pub open spec fn shift_overflows(rhs: int, bits: int) -> bool {
    rhs < 0 || rhs >= bits
}

/// Whether the quotient of `a` by `b` exists within a type whose least value
/// is `min`: the divisor is not zero, and the quotient is not the negation of
/// the least value.
pub open spec fn division_is_defined(a: int, b: int, min: int) -> bool {
    b != 0 && !(min < 0 && a == min && b == -1)
}

/// The quotient of `a` by `b`, rounded towards zero.
pub open spec fn truncated_quotient(a: int, b: int) -> int {
    if a >= 0 && b > 0 {
        a / b
    } else if a >= 0 && b < 0 {
        -(a / (-b))
    } else if a < 0 && b > 0 {
        -((-a) / b)
    } else {
        (-a) / (-b)
    }
}

/// The quotient that rounds towards zero, and the remainder that goes with
/// it, lie in the range of a two's-complement type wherever the division is
/// defined, and are made of the quotient and the remainder of the absolute
/// values.
pub proof fn lemma_truncated_division(a: int, b: int, min: int, max: int)
    requires
        min == -max - 1,
        min <= a <= max,
        min <= b <= max,
        division_is_defined(a, b, min),
    ensures
        min <= truncated_quotient(a, b) <= max,
        min <= a - b * truncated_quotient(a, b) <= max,
        truncated_quotient(a, b) == if a == 0 {
            0
        } else if a > 0 && b > 0 {
            a / b
        } else if a < 0 && b < 0 {
            (a * -1) / (b * -1)
        } else if a < 0 {
            ((a * -1) / b) * -1
        } else {
            (a / (b * -1)) * -1
        },
        a - b * truncated_quotient(a, b) == if a == 0 {
            0
        } else if a > 0 && b > 0 {
            a % b
        } else if a < 0 && b < 0 {
            ((a * -1) % (b * -1)) * -1
        } else if a < 0 {
            ((a * -1) % b) * -1
        } else {
            a % (b * -1)
        },
{
    let p = if a < 0 {
        -a
    } else {
        a
    };
    let q = if b < 0 {
        -b
    } else {
        b
    };
    lemma_fundamental_div_mod(p, q);
    assert(0 <= p / q <= p) by (nonlinear_arith)
        requires
            p >= 0,
            q > 0,
    ;
    assert(0 <= p % q < q) by (nonlinear_arith)
        requires
            q > 0,
    ;
    assert(p == 0 ==> p / q == 0) by (nonlinear_arith)
        requires
            q > 0,
    ;
    assert(q * (p / q) <= p) by (nonlinear_arith)
        requires
            p == q * (p / q) + p % q,
            0 <= p % q,
    ;
    if q == 1 {
        assert(p / q == p) by (nonlinear_arith)
            requires
                q == 1,
                p == q * (p / q) + p % q,
                0 <= p % q < q,
        ;
    } else {
        assert(p / q < p || p == 0) by (nonlinear_arith)
            requires
                q >= 2,
                p >= 0,
                p == q * (p / q) + p % q,
                0 <= p % q,
                0 <= p / q,
        ;
    }
    let d = p / q;
    let t = truncated_quotient(a, b);
    if a >= 0 && b > 0 {
        assert(t == d);
    } else if a >= 0 && b < 0 {
        assert(t == -d);
        assert(b * t == q * d) by (nonlinear_arith)
            requires
                b == -q,
                t == -d,
        ;
    } else if a < 0 && b > 0 {
        assert(t == -d);
        assert(b * t == -(q * d)) by (nonlinear_arith)
            requires
                b == q,
                t == -d,
        ;
    } else {
        assert(t == d);
        assert(b * t == -(q * d)) by (nonlinear_arith)
            requires
                b == -q,
                t == d,
        ;
    }
}

/// An integer type whose values can be the lanes of a vector.
pub trait Int: sealed::Sealed + Copy + Sized {
    /// The integer that the lane holds.
    spec fn value(self) -> int;

    /// The least value of the type.
    spec fn least() -> int;

    /// The greatest value of the type.
    spec fn greatest() -> int;

    /// The width of the type in bits.
    spec fn bits() -> int;

    /// The bitwise "and" of two lanes.
    spec fn bit_and(self, other: Self) -> Self;

    /// The bitwise "or" of two lanes.
    spec fn bit_or(self, other: Self) -> Self;

    /// The bitwise "xor" of two lanes.
    spec fn bit_xor(self, other: Self) -> Self;

    /// The bitwise complement of a lane.
    spec fn bit_not(self) -> Self;

    /// The lane shifted left by `rhs` bits.
    spec fn shifted_left(self, rhs: Self) -> Self;

    /// The lane shifted right by `rhs` bits: with copies of the sign bit for
    /// a signed type, with zeros for an unsigned one.
    spec fn shifted_right(self, rhs: Self) -> Self;

    /// A lane is determined by its value, and the value lies in the range of
    /// the type.
    proof fn lemma_value(a: Self, b: Self)
        ensures
            Self::least() <= a.value() <= Self::greatest(),
            a.value() == b.value() ==> a == b,
    ;

    /// The range is that of an unsigned or of a two's-complement integer of
    /// at least eight bits.
    proof fn lemma_range()
        ensures
            Self::greatest() >= 127,
            Self::least() == 0 || Self::least() == -Self::greatest() - 1,
            Self::bits() >= 8,
    ;

    /// The width of the type is at most 64 bits.
    proof fn lemma_width()
        ensures
            Self::bits() <= 64,
    ;

    /// The width of the type in bits.
    fn lane_bits() -> (r: u32)
        ensures
            r == Self::bits(),
    ;

    /// The lane that holds `0`.
    fn lane_zero() -> (r: Self)
        ensures
            r.value() == 0,
    ;

    /// The lane that holds `1`.
    fn lane_one() -> (r: Self)
        ensures
            r.value() == 1,
    ;

    /// The lane that holds the least value of the type.
    fn lane_min() -> (r: Self)
        ensures
            r.value() == Self::least(),
    ;

    /// The lane that holds the greatest value of the type.
    fn lane_max() -> (r: Self)
        ensures
            r.value() == Self::greatest(),
    ;

    /// The lane that holds `index`, which must fit the type.
    fn lane_from_index(index: usize) -> (r: Self)
        requires
            index <= Self::greatest(),
        ensures
            r.value() == index,
    ;

    /// Whether two lanes hold the same value.
    fn lane_eq(self, other: Self) -> (r: bool)
        ensures
            r == (self.value() == other.value()),
    ;

    /// Whether `self` holds less than `other`.
    fn lane_lt(self, other: Self) -> (r: bool)
        ensures
            r == (self.value() < other.value()),
    ;

    /// Whether `self` holds at most what `other` holds.
    fn lane_le(self, other: Self) -> (r: bool)
        ensures
            r == (self.value() <= other.value()),
    ;

    /// The sum, wrapped into the range of the type.
    fn lane_wrapping_add(self, other: Self) -> (r: Self)
        ensures
            r.value() == wrapped(self.value() + other.value(), Self::least(), Self::greatest()),
    ;

    /// The difference, wrapped into the range of the type.
    fn lane_wrapping_sub(self, other: Self) -> (r: Self)
        ensures
            r.value() == wrapped(self.value() - other.value(), Self::least(), Self::greatest()),
    ;

    /// The product, wrapped into the range of the type.
    fn lane_wrapping_mul(self, other: Self) -> (r: Self)
        ensures
            r.value() == wrapped(self.value() * other.value(), Self::least(), Self::greatest()),
    ;

    /// The sum, clamped to the range of the type.
    fn lane_saturating_add(self, other: Self) -> (r: Self)
        ensures
            r.value() == clamped(self.value() + other.value(), Self::least(), Self::greatest()),
    ;

    /// The difference, clamped to the range of the type.
    fn lane_saturating_sub(self, other: Self) -> (r: Self)
        ensures
            r.value() == clamped(self.value() - other.value(), Self::least(), Self::greatest()),
    ;

    /// The quotient, rounded towards zero. The divisor is not zero, and the
    /// dividend is not the least value where the divisor is `-1`.
    fn lane_div(self, other: Self) -> (r: Self)
        requires
            division_is_defined(
                self.value(),
                other.value(),
                Self::least(),
            ),
        ensures
            r.value() == truncated_quotient(self.value(), other.value()),
    ;

    /// The remainder of the division that rounds towards zero. The divisor
    /// is not zero, and the dividend is not the least value where the divisor
    /// is `-1`.
    fn lane_rem(self, other: Self) -> (r: Self)
        requires
            division_is_defined(
                self.value(),
                other.value(),
                Self::least(),
            ),
        ensures
            r.value() == self.value() - other.value() * truncated_quotient(
                self.value(),
                other.value(),
            ),
    ;

    /// The lane shifted left by `rhs` bits. The shift is not negative and
    /// less than the width of the type.
    fn lane_shl(self, rhs: Self) -> (r: Self)
        requires
            !shift_overflows(rhs.value(), Self::bits()),
        ensures
            r == self.shifted_left(rhs),
    ;

    /// The lane shifted right by `rhs` bits. The shift is not negative and
    /// less than the width of the type.
    fn lane_shr(self, rhs: Self) -> (r: Self)
        requires
            !shift_overflows(rhs.value(), Self::bits()),
        ensures
            r == self.shifted_right(rhs),
    ;

    /// The bitwise "and".
    fn lane_and(self, other: Self) -> (r: Self)
        ensures
            r == self.bit_and(other),
    ;

    /// The bitwise "or".
    fn lane_or(self, other: Self) -> (r: Self)
        ensures
            r == self.bit_or(other),
    ;

    /// The bitwise "xor".
    fn lane_xor(self, other: Self) -> (r: Self)
        ensures
            r == self.bit_xor(other),
    ;

    /// The bitwise complement.
    fn lane_not(self) -> (r: Self)
        ensures
            r == self.bit_not(),
    ;
}

/// A two's-complement signed integer type.
pub trait SInt: Int {
    /// The type is signed: its least value is negative.
    proof fn lemma_signed()
        ensures
            Self::least() == -Self::greatest() - 1,
    ;

    /// The lane that holds `-1`, in which every bit is set.
    fn lane_minus_one() -> (r: Self)
        ensures
            r.value() == -1,
    ;
}

/// A signed integer type whose values can be the lanes of a mask: `-1`, all
/// bits set, stands for `true`, and `0` for `false`.
pub trait MaskElement: SInt {
    /// The lane that stands for `true`.
    fn truth() -> (r: Self)
        ensures
            r.value() == -1,
    ;

    /// The lane that stands for `false`.
    fn falsity() -> (r: Self)
        ensures
            r.value() == 0,
    ;
}

/// A type that can be the element of a vector. It names the integer type of
/// the same width in which a mask over such vectors keeps its lanes.
pub trait SimdElement: sealed::Sealed + Copy + Sized {
    /// The mask element type that goes with this element type.
    type Mask: MaskElement;
}

} // verus!
