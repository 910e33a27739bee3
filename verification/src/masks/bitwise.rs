//! The logical operators on masks. Each works lane by lane, and a `bool` on
//! either side stands for the mask with that value in every lane.

use crate::element::SimdElement;
use crate::masks::{lemma_mask_ext_equal, lemma_mask_len, Mask};
use vstd::prelude::*;
use vstd::std_specs::ops::{BitAndSpecImpl, BitOrSpecImpl, BitXorSpecImpl, NotSpecImpl};

verus! {

broadcast use lemma_mask_len;

/// A logical operation on two lanes.
#[derive(Clone, Copy)]
pub enum BoolOp {
    /// Both lanes are set.
    And,
    /// At least one of the lanes is set.
    Or,
    /// Exactly one of the lanes is set.
    Xor,
}

impl BoolOp {
    /// The result of the operation on `a` and `b`.
    pub open spec fn of(self, a: bool, b: bool) -> bool {
        match self {
            BoolOp::And => a && b,
            BoolOp::Or => a || b,
            BoolOp::Xor => a != b,
        }
    }

    /// The result of the operation on `a` and `b`.
    pub fn apply(self, a: bool, b: bool) -> (r: bool)
        ensures
            r == self.of(a, b),
    {
        match self {
            BoolOp::And => a && b,
            BoolOp::Or => a || b,
            BoolOp::Xor => a != b,
        }
    }
}

/// The lanes that `op` makes of the lanes of `a` and `b`.
pub open spec fn combined_lanes(op: BoolOp, a: Seq<bool>, b: Seq<bool>) -> Seq<bool> {
    Seq::new(a.len(), |i: int| op.of(a[i], b[i]))
}

/// The lanes of `a`, each negated.
pub open spec fn negated_lanes(a: Seq<bool>) -> Seq<bool> {
    Seq::new(a.len(), |i: int| !a[i])
}

/// `n` lanes that all hold `value`.
pub open spec fn splat_lanes(value: bool, n: nat) -> Seq<bool> {
    Seq::new(n, |i: int| value)
}

impl<T: SimdElement, const N: usize> Mask<T, N> {
    /// The mask that `op` makes of `self` and `rhs`, lane by lane.
    pub fn combine(self, rhs: Self, op: BoolOp) -> (r: Self)
        ensures
            r@ == combined_lanes(op, self@, rhs@),
            r == Self::with_lanes(combined_lanes(op, self@, rhs@)),
    {
        let mut lanes = [false;N];
        let mut i: usize = 0;
        while i < N
            invariant
                i <= N,
                lanes@.len() == N,
                forall|j: int| 0 <= j < i ==> lanes@[j] == op.of(self@[j], rhs@[j]),
            decreases N - i,
        {
            lanes[i] = op.apply(self.test(i), rhs.test(i));
            i += 1;
        }
        let r = Mask::from_array(lanes);
        assert(r@ =~= combined_lanes(op, self@, rhs@));
        proof {
            use_type_invariant(r);
            lemma_mask_ext_equal(r, Self::with_lanes(combined_lanes(op, self@, rhs@)));
        }
        r
    }
}

impl<T: SimdElement, const N: usize> core::ops::BitAnd for Mask<T, N> {
    type Output = Self;

    /// The mask of the lanes that are set in both masks.
    fn bitand(self, rhs: Self) -> (r: Self)
        ensures
            r@ == combined_lanes(BoolOp::And, self@, rhs@),
    {
        self.combine(rhs, BoolOp::And)
    }
}

impl<T: SimdElement, const N: usize> BitAndSpecImpl for Mask<T, N> {
    open spec fn obeys_bitand_spec() -> bool {
        true
    }

    open spec fn bitand_req(self, rhs: Self) -> bool {
        true
    }

    open spec fn bitand_spec(self, rhs: Self) -> Self {
        Self::with_lanes(combined_lanes(BoolOp::And, self@, rhs@))
    }
}

impl<T: SimdElement, const N: usize> core::ops::BitOr for Mask<T, N> {
    type Output = Self;

    /// The mask of the lanes that are set in at least one of the masks.
    fn bitor(self, rhs: Self) -> (r: Self)
        ensures
            r@ == combined_lanes(BoolOp::Or, self@, rhs@),
    {
        self.combine(rhs, BoolOp::Or)
    }
}

impl<T: SimdElement, const N: usize> BitOrSpecImpl for Mask<T, N> {
    open spec fn obeys_bitor_spec() -> bool {
        true
    }

    open spec fn bitor_req(self, rhs: Self) -> bool {
        true
    }

    open spec fn bitor_spec(self, rhs: Self) -> Self {
        Self::with_lanes(combined_lanes(BoolOp::Or, self@, rhs@))
    }
}

impl<T: SimdElement, const N: usize> core::ops::BitXor for Mask<T, N> {
    type Output = Self;

    /// The mask of the lanes that are set in exactly one of the masks.
    fn bitxor(self, rhs: Self) -> (r: Self)
        ensures
            r@ == combined_lanes(BoolOp::Xor, self@, rhs@),
    {
        self.combine(rhs, BoolOp::Xor)
    }
}

impl<T: SimdElement, const N: usize> BitXorSpecImpl for Mask<T, N> {
    open spec fn obeys_bitxor_spec() -> bool {
        true
    }

    open spec fn bitxor_req(self, rhs: Self) -> bool {
        true
    }

    open spec fn bitxor_spec(self, rhs: Self) -> Self {
        Self::with_lanes(combined_lanes(BoolOp::Xor, self@, rhs@))
    }
}

impl<T: SimdElement, const N: usize> core::ops::Not for Mask<T, N> {
    type Output = Self;

    /// The mask of the lanes that are not set.
    fn not(self) -> (r: Self)
        ensures
            r@ == negated_lanes(self@),
    {
        let r = Self::splat(true).combine(self, BoolOp::Xor);
        assert(r@ =~= negated_lanes(self@));
        proof {
            use_type_invariant(r);
            lemma_mask_ext_equal(r, Self::with_lanes(negated_lanes(self@)));
        }
        r
    }
}

impl<T: SimdElement, const N: usize> NotSpecImpl for Mask<T, N> {
    open spec fn obeys_not_spec() -> bool {
        true
    }

    open spec fn not_req(self) -> bool {
        true
    }

    open spec fn not_spec(self) -> Self {
        Self::with_lanes(negated_lanes(self@))
    }
}

impl<T: SimdElement, const N: usize> core::ops::BitAnd<bool> for Mask<T, N> {
    type Output = Self;

    /// As with the mask that holds `rhs` in every lane.
    fn bitand(self, rhs: bool) -> (r: Self)
        ensures
            r@ == combined_lanes(BoolOp::And, self@, splat_lanes(rhs, N as nat)),
    {
        self.combine(Self::splat(rhs), BoolOp::And)
    }
}

impl<T: SimdElement, const N: usize> BitAndSpecImpl<bool> for Mask<T, N> {
    open spec fn obeys_bitand_spec() -> bool {
        true
    }

    open spec fn bitand_req(self, rhs: bool) -> bool {
        true
    }

    open spec fn bitand_spec(self, rhs: bool) -> Self {
        Self::with_lanes(combined_lanes(BoolOp::And, self@, splat_lanes(rhs, N as nat)))
    }
}

impl<T: SimdElement, const N: usize> core::ops::BitAnd<Mask<T, N>> for bool {
    type Output = Mask<T, N>;

    /// As with the mask that holds `self` in every lane.
    fn bitand(self, rhs: Mask<T, N>) -> (r: Mask<T, N>)
        ensures
            r@ == combined_lanes(BoolOp::And, splat_lanes(self, N as nat), rhs@),
    {
        Mask::splat(self).combine(rhs, BoolOp::And)
    }
}

impl<T: SimdElement, const N: usize> BitAndSpecImpl<Mask<T, N>> for bool {
    open spec fn obeys_bitand_spec() -> bool {
        true
    }

    open spec fn bitand_req(self, rhs: Mask<T, N>) -> bool {
        true
    }

    open spec fn bitand_spec(self, rhs: Mask<T, N>) -> Mask<T, N> {
        Mask::with_lanes(combined_lanes(BoolOp::And, splat_lanes(self, N as nat), rhs@))
    }
}

impl<T: SimdElement, const N: usize> core::ops::BitAndAssign for Mask<T, N> {
    fn bitand_assign(&mut self, rhs: Self)
        ensures
            final(self)@ == combined_lanes(BoolOp::And, old(self)@, rhs@),
    {
        *self = self.combine(rhs, BoolOp::And);
    }
}

impl<T: SimdElement, const N: usize> core::ops::BitAndAssign<bool> for Mask<T, N> {
    fn bitand_assign(&mut self, rhs: bool)
        ensures
            final(self)@ == combined_lanes(BoolOp::And, old(self)@, splat_lanes(rhs, N as nat)),
    {
        *self = self.combine(Self::splat(rhs), BoolOp::And);
    }
}

impl<T: SimdElement, const N: usize> core::ops::BitOr<bool> for Mask<T, N> {
    type Output = Self;

    /// As with the mask that holds `rhs` in every lane.
    fn bitor(self, rhs: bool) -> (r: Self)
        ensures
            r@ == combined_lanes(BoolOp::Or, self@, splat_lanes(rhs, N as nat)),
    {
        self.combine(Self::splat(rhs), BoolOp::Or)
    }
}

impl<T: SimdElement, const N: usize> BitOrSpecImpl<bool> for Mask<T, N> {
    open spec fn obeys_bitor_spec() -> bool {
        true
    }

    open spec fn bitor_req(self, rhs: bool) -> bool {
        true
    }

    open spec fn bitor_spec(self, rhs: bool) -> Self {
        Self::with_lanes(combined_lanes(BoolOp::Or, self@, splat_lanes(rhs, N as nat)))
    }
}

impl<T: SimdElement, const N: usize> core::ops::BitOr<Mask<T, N>> for bool {
    type Output = Mask<T, N>;

    /// As with the mask that holds `self` in every lane.
    fn bitor(self, rhs: Mask<T, N>) -> (r: Mask<T, N>)
        ensures
            r@ == combined_lanes(BoolOp::Or, splat_lanes(self, N as nat), rhs@),
    {
        Mask::splat(self).combine(rhs, BoolOp::Or)
    }
}

impl<T: SimdElement, const N: usize> BitOrSpecImpl<Mask<T, N>> for bool {
    open spec fn obeys_bitor_spec() -> bool {
        true
    }

    open spec fn bitor_req(self, rhs: Mask<T, N>) -> bool {
        true
    }

    open spec fn bitor_spec(self, rhs: Mask<T, N>) -> Mask<T, N> {
        Mask::with_lanes(combined_lanes(BoolOp::Or, splat_lanes(self, N as nat), rhs@))
    }
}

impl<T: SimdElement, const N: usize> core::ops::BitOrAssign for Mask<T, N> {
    fn bitor_assign(&mut self, rhs: Self)
        ensures
            final(self)@ == combined_lanes(BoolOp::Or, old(self)@, rhs@),
    {
        *self = self.combine(rhs, BoolOp::Or);
    }
}

impl<T: SimdElement, const N: usize> core::ops::BitOrAssign<bool> for Mask<T, N> {
    fn bitor_assign(&mut self, rhs: bool)
        ensures
            final(self)@ == combined_lanes(BoolOp::Or, old(self)@, splat_lanes(rhs, N as nat)),
    {
        *self = self.combine(Self::splat(rhs), BoolOp::Or);
    }
}

impl<T: SimdElement, const N: usize> core::ops::BitXor<bool> for Mask<T, N> {
    type Output = Self;

    /// As with the mask that holds `rhs` in every lane.
    fn bitxor(self, rhs: bool) -> (r: Self)
        ensures
            r@ == combined_lanes(BoolOp::Xor, self@, splat_lanes(rhs, N as nat)),
    {
        self.combine(Self::splat(rhs), BoolOp::Xor)
    }
}

impl<T: SimdElement, const N: usize> BitXorSpecImpl<bool> for Mask<T, N> {
    open spec fn obeys_bitxor_spec() -> bool {
        true
    }

    open spec fn bitxor_req(self, rhs: bool) -> bool {
        true
    }

    open spec fn bitxor_spec(self, rhs: bool) -> Self {
        Self::with_lanes(combined_lanes(BoolOp::Xor, self@, splat_lanes(rhs, N as nat)))
    }
}

impl<T: SimdElement, const N: usize> core::ops::BitXor<Mask<T, N>> for bool {
    type Output = Mask<T, N>;

    /// As with the mask that holds `self` in every lane.
    fn bitxor(self, rhs: Mask<T, N>) -> (r: Mask<T, N>)
        ensures
            r@ == combined_lanes(BoolOp::Xor, splat_lanes(self, N as nat), rhs@),
    {
        Mask::splat(self).combine(rhs, BoolOp::Xor)
    }
}

impl<T: SimdElement, const N: usize> BitXorSpecImpl<Mask<T, N>> for bool {
    open spec fn obeys_bitxor_spec() -> bool {
        true
    }

    open spec fn bitxor_req(self, rhs: Mask<T, N>) -> bool {
        true
    }

    open spec fn bitxor_spec(self, rhs: Mask<T, N>) -> Mask<T, N> {
        Mask::with_lanes(combined_lanes(BoolOp::Xor, splat_lanes(self, N as nat), rhs@))
    }
}

impl<T: SimdElement, const N: usize> core::ops::BitXorAssign for Mask<T, N> {
    fn bitxor_assign(&mut self, rhs: Self)
        ensures
            final(self)@ == combined_lanes(BoolOp::Xor, old(self)@, rhs@),
    {
        *self = self.combine(rhs, BoolOp::Xor);
    }
}

impl<T: SimdElement, const N: usize> core::ops::BitXorAssign<bool> for Mask<T, N> {
    fn bitxor_assign(&mut self, rhs: bool)
        ensures
            final(self)@ == combined_lanes(BoolOp::Xor, old(self)@, splat_lanes(rhs, N as nat)),
    {
        *self = self.combine(Self::splat(rhs), BoolOp::Xor);
    }
}

/// The negation of what is set in both masks is what is not set in the one
/// or not set in the other; and likewise with "and" and "or" exchanged.
pub proof fn lemma_de_morgan(a: Seq<bool>, b: Seq<bool>)
    requires
        a.len() == b.len(),
    ensures
        negated_lanes(combined_lanes(BoolOp::And, a, b)) == combined_lanes(
            BoolOp::Or,
            negated_lanes(a),
            negated_lanes(b),
        ),
        negated_lanes(combined_lanes(BoolOp::Or, a, b)) == combined_lanes(
            BoolOp::And,
            negated_lanes(a),
            negated_lanes(b),
        ),
{
    assert(negated_lanes(combined_lanes(BoolOp::And, a, b)) =~= combined_lanes(
        BoolOp::Or,
        negated_lanes(a),
        negated_lanes(b),
    ));
    assert(negated_lanes(combined_lanes(BoolOp::Or, a, b)) =~= combined_lanes(
        BoolOp::And,
        negated_lanes(a),
        negated_lanes(b),
    ));
}

/// Negating a mask twice gives back the mask.
pub proof fn lemma_double_negation(a: Seq<bool>)
    ensures
        negated_lanes(negated_lanes(a)) == a,
{
    assert(negated_lanes(negated_lanes(a)) =~= a);
}

} // verus!
