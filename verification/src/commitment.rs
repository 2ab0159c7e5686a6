//! A hiding, binding Pedersen-style commitment over the Ristretto group,
//! used by commit-and-open and by the MAC check: C = v·G + r·H, with r
//! uniform and H an auxiliary generator derived by hashing a fixed
//! domain-separation tag to the group (so no discrete-log relation to G is
//! known).

use crate::curve::{
    base_point, point_add, point_eq, point_from_uniform_bytes, point_val, scalar_random,
    scalar_reduced, scalar_val, point_scalar_mul, uniform_point_val,
};
use crate::modular::{
    fadd, fmul, group_order, in_field, lemma_cong_sub, lemma_in_field_mod_noop,
    lemma_small_nonzero_mod,
};
use curve25519_dalek::ristretto::RistrettoPoint;
use curve25519_dalek::scalar::Scalar;
use vstd::prelude::*;

verus! {

/// The 64-byte domain-separation tag from which the auxiliary generator H
/// is derived.
pub open spec fn aux_generator_tag() -> Seq<u8> {
    Seq::new(64, |i: int| 0x48u8)
}

/// The discrete logarithm of the auxiliary generator H.
pub open spec fn aux_generator_val() -> int {
    uniform_point_val(aux_generator_tag())
}

/// The commitment C = v·G + r·H, as a discrete logarithm: v + r·h mod ℓ,
/// where h is H's (unknown) discrete logarithm.
pub open spec fn spec_pedersen(v: int, r: int) -> int {
    fadd(fmul(v, 1), fmul(r, aux_generator_val()))
}

/// The auxiliary generator H.
pub fn aux_generator() -> (r: RistrettoPoint)
    ensures
        point_val(r) == aux_generator_val(),
        in_field(point_val(r)),
{
    let bytes: [u8; 64] = [0x48u8; 64];
    proof {
        assert(bytes@ =~= aux_generator_tag());
    }
    point_from_uniform_bytes(&bytes)
}

/// The mathematical model of a commitment: the committed value v, the
/// blinding r, and the commitment point C (as discrete logs).
pub ghost struct CommitmentView {
    pub c: int,
    pub r: int,
    pub v: int,
}

/// A Pedersen commitment to a field scalar, held together with its
/// opening (value and blinding); transient within commit-and-open.
pub struct RistrettoCommitment {
    commitment: RistrettoPoint,
    blinding: Scalar,
    value: Scalar,
}

impl View for RistrettoCommitment {
    type V = CommitmentView;

    closed spec fn view(&self) -> CommitmentView {
        CommitmentView {
            c: point_val(self.commitment),
            r: scalar_val(self.blinding),
            v: scalar_val(self.value),
        }
    }
}

impl RistrettoCommitment {
    /// Well-formedness: the commitment point matches the opening.
    pub open spec fn wf(self) -> bool {
        self@.c == spec_pedersen(self@.v, self@.r) && in_field(self@.v) && in_field(self@.r)
    }

    /// Commit to a value under a freshly sampled uniform blinding.
    pub fn commit(value: &Scalar) -> (r: Self)
        ensures
            r.wf(),
            r@.v == scalar_val(*value),
    {
        let value = scalar_reduced(*value);
        let blinding = scalar_random();
        let commitment = point_add(
            &point_scalar_mul(&base_point(), &value),
            &point_scalar_mul(&aux_generator(), &blinding),
        );
        Self { commitment, blinding, value }
    }

    /// The commitment point C, exchanged before the opening.
    pub fn get_commitment(&self) -> (r: RistrettoPoint)
        ensures
            point_val(r) == self@.c,
    {
        self.commitment
    }

    /// The blinding r of the opening.
    pub fn get_blinding(&self) -> (r: Scalar)
        ensures
            scalar_val(r) == self@.r,
    {
        self.blinding
    }

    /// The committed value v of the opening.
    pub fn get_value(&self) -> (r: Scalar)
        ensures
            scalar_val(r) == self@.v,
    {
        self.value
    }

    /// Verify a peer's opening (blinding, value) against its earlier
    /// commitment point: C == v·G + r·H.
    pub fn verify_from_values(commitment: &RistrettoPoint, blinding: &Scalar, value: &Scalar) -> (r:
        bool)
        ensures
            r == (point_val(*commitment) == spec_pedersen(scalar_val(*value), scalar_val(*blinding))),
    {
        let expected = point_add(
            &point_scalar_mul(&base_point(), value),
            &point_scalar_mul(&aux_generator(), blinding),
        );
        point_eq(commitment, &expected)
    }
}

/// The commitment scheme is perfectly binding in the committed value for
/// a fixed blinding: openings of two different field elements under the
/// same blinding can never verify against the same commitment.  (Binding
/// against a peer that also changes the blinding rests on the hardness of
/// the discrete logarithm of H, which is outside what can be stated
/// here.)
pub proof fn lemma_commitment_binding(v: int, v2: int, r: int)
    requires
        in_field(v),
        in_field(v2),
        v != v2,
    ensures
        spec_pedersen(v, r) != spec_pedersen(v2, r),
{
    let t = fmul(r, aux_generator_val());
    assert(v * 1 == v) by (nonlinear_arith);
    assert(v2 * 1 == v2) by (nonlinear_arith);
    lemma_in_field_mod_noop(v);
    lemma_in_field_mod_noop(v2);
    assert(fmul(v, 1) == v);
    assert(fmul(v2, 1) == v2);
    if spec_pedersen(v, r) == spec_pedersen(v2, r) {
        lemma_cong_sub(v + t, v2 + t, v2 + t, v2 + t);
        lemma_small_nonzero_mod(v - v2);
        assert((v2 + t) - (v2 + t) == 0);
        vstd::arithmetic::div_mod::lemma_small_mod(0nat, group_order() as nat);
        assert(false);
    }
}

/// The same binding law for commitments to group elements.
pub proof fn lemma_point_commitment_binding(v: int, v2: int, r: int)
    requires
        in_field(v),
        in_field(v2),
        v != v2,
    ensures
        spec_pedersen_point(v, r) != spec_pedersen_point(v2, r),
{
    let t = fmul(r, aux_generator_val());
    if spec_pedersen_point(v, r) == spec_pedersen_point(v2, r) {
        lemma_cong_sub(v + t, v2 + t, v2 + t, v2 + t);
        lemma_small_nonzero_mod(v - v2);
        assert((v2 + t) - (v2 + t) == 0);
        vstd::arithmetic::div_mod::lemma_small_mod(0nat, group_order() as nat);
        assert(false);
    }
}

/// The commitment C = P + r·H to a group element P, as discrete logs.
pub open spec fn spec_pedersen_point(v: int, r: int) -> int {
    fadd(v, fmul(r, aux_generator_val()))
}

/// A Pedersen commitment to a Ristretto point, used by commit-and-open on
/// shared points: C = P + r·H.
pub struct RistrettoPointCommitment {
    commitment: RistrettoPoint,
    blinding: Scalar,
    value: RistrettoPoint,
}

impl View for RistrettoPointCommitment {
    type V = CommitmentView;

    closed spec fn view(&self) -> CommitmentView {
        CommitmentView {
            c: point_val(self.commitment),
            r: scalar_val(self.blinding),
            v: point_val(self.value),
        }
    }
}

impl RistrettoPointCommitment {
    pub open spec fn wf(self) -> bool {
        self@.c == spec_pedersen_point(self@.v, self@.r) && in_field(self@.v) && in_field(self@.r)
    }

    /// Commit to a group element under a freshly sampled blinding.
    pub fn commit(value: &RistrettoPoint) -> (r: Self)
        ensures
            r.wf(),
            r@.v == point_val(*value),
    {
        let value = crate::curve::point_reduced(*value);
        let blinding = scalar_random();
        let commitment = point_add(&value, &point_scalar_mul(&aux_generator(), &blinding));
        Self { commitment, blinding, value }
    }

    pub fn get_commitment(&self) -> (r: RistrettoPoint)
        ensures
            point_val(r) == self@.c,
    {
        self.commitment
    }

    pub fn get_blinding(&self) -> (r: Scalar)
        ensures
            scalar_val(r) == self@.r,
    {
        self.blinding
    }

    pub fn get_value(&self) -> (r: RistrettoPoint)
        ensures
            point_val(r) == self@.v,
    {
        self.value
    }

    /// Verify a peer's opening (blinding, point) against its commitment.
    pub fn verify_from_values(
        commitment: &RistrettoPoint,
        blinding: &Scalar,
        value: &RistrettoPoint,
    ) -> (r: bool)
        ensures
            r == (point_val(*commitment) == spec_pedersen_point(
                point_val(*value),
                scalar_val(*blinding),
            )),
    {
        let expected = point_add(value, &point_scalar_mul(&aux_generator(), blinding));
        point_eq(commitment, &expected)
    }
}

} // verus!
