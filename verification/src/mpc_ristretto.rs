//! A Ristretto point allocated in the MPC network: this party's additive
//! share of (or plain copy of) a group element, with its visibility.
//!
//! The Ristretto group is cyclic of prime order ℓ, so a point is modelled
//! by its discrete logarithm with respect to the base point: a shared
//! point is an additive sharing of that field element, and every additive
//! operation mirrors the shared-scalar one with group operations in place
//! of field operations.  A shared point therefore has the same view type
//! as a shared scalar, and the `two_party` laws apply to both.

use crate::commitment::{spec_pedersen_point, RistrettoPointCommitment};
use crate::curve::{
    base_point, bytes_decode_ok, bytes_decode_val, compressed_bytes, compressed_from_bytes,
    compressed_to_bytes, compressed_decompress, point_add, point_compress, point_eq,
    point_identity, point_neg, point_random, point_reduced, point_scalar_mul, point_val,
    scalar_add, scalar_from_u64, scalar_reduced, scalar_sub, scalar_val,
};
use crate::error::MpcError;
use crate::modular::{
    fadd, fmul, fneg, fsub, in_field, lemma_field_ops_in_field, lemma_in_field_mod_noop,
};
use crate::mpc_scalar::{spec_add_val, spec_add_view, spec_beaver_share, spec_sub_val, MpcScalar, ShareView};
use crate::visibility::Visibility;
use curve25519_dalek::ristretto::{CompressedRistretto, RistrettoPoint};
use curve25519_dalek::scalar::Scalar;
use vstd::prelude::*;

verus! {

/// The fold that multiscalar multiplication computes: Σ cᵢ·Pᵢ over
/// public scalars and possibly-shared points, as a left fold of `add`
/// over the per-term local products, from a Public identity.
pub open spec fn spec_msm(
    scalars: Seq<Scalar>,
    points: Seq<MpcRistrettoPoint>,
    party: int,
    i: int,
) -> ShareView
    decreases i,
{
    if i <= 0 {
        ShareView { val: 0, vis: Visibility::Public, party }
    } else {
        let term = ShareView {
            val: fmul(scalar_val(scalars[i - 1]), points[i - 1]@.val),
            vis: points[i - 1]@.vis,
            party,
        };
        spec_add_view(spec_msm(scalars, points, party, i - 1), term)
    }
}

/// A Ristretto group element allocated in the MPC network, modelled by
/// the discrete logarithm of this party's share.
#[derive(Clone, Copy)]
pub struct MpcRistrettoPoint {
    /// This party's share of the point (or the plain point itself when
    /// the visibility is Private or Public).
    value: RistrettoPoint,
    /// How much information the parties hold about the value.
    visibility: Visibility,
    /// This party's id: 0 (the king) or 1.
    party_id: u64,
}

impl View for MpcRistrettoPoint {
    type V = ShareView;

    closed spec fn view(&self) -> ShareView {
        ShareView {
            val: point_val(self.value),
            vis: self.visibility,
            party: self.party_id as int,
        }
    }
}

impl MpcRistrettoPoint {
    /// Well-formedness: the share's discrete logarithm is a canonical
    /// field element and the party id is one of the two parties'.
    pub open spec fn wf(self) -> bool {
        in_field(self@.val) && 0 <= self@.party < 2
    }

    /// Multiply a scalar by the Ristretto base point.
    pub fn base_point_mul(a: &Scalar) -> (r: RistrettoPoint)
        ensures
            point_val(r) == scalar_val(*a),
            in_field(point_val(r)),
    {
        let a = scalar_reduced(*a);
        let r = point_scalar_mul(&base_point(), &a);
        proof {
            assert(scalar_val(a) * 1 == scalar_val(a));
            lemma_in_field_mod_noop(scalar_val(a));
        }
        r
    }

    /// Multiply a u64, read as a scalar, by the Ristretto base point.
    pub fn base_point_mul_u64(a: u64) -> (r: RistrettoPoint)
        ensures
            point_val(r) == a as int,
            in_field(point_val(r)),
    {
        Self::base_point_mul(&scalar_from_u64(a))
    }

    /// Create a point from an existing group element with the given
    /// visibility.
    pub fn from_ristretto_point_with_visibility(
        a: RistrettoPoint,
        visibility: Visibility,
        party_id: u64,
    ) -> (r: Self)
        requires
            party_id < 2,
        ensures
            r.wf(),
            r@.val == point_val(a),
            r@.vis == visibility,
            r@.party == party_id as int,
    {
        let value = point_reduced(a);
        Self { value, visibility, party_id }
    }

    /// Create a Public point from an existing group element.
    pub fn from_public_ristretto_point(a: RistrettoPoint, party_id: u64) -> (r: Self)
        requires
            party_id < 2,
        ensures
            r.wf(),
            r@.val == point_val(a),
            r@.vis == Visibility::Public,
            r@.party == party_id as int,
    {
        Self::from_ristretto_point_with_visibility(a, Visibility::Public, party_id)
    }

    /// Create a Private point from an existing group element.
    pub fn from_private_ristretto_point(a: RistrettoPoint, party_id: u64) -> (r: Self)
        requires
            party_id < 2,
        ensures
            r.wf(),
            r@.val == point_val(a),
            r@.vis == Visibility::Private,
            r@.party == party_id as int,
    {
        Self::from_ristretto_point_with_visibility(a, Visibility::Private, party_id)
    }

    /// Create a point a·G from a scalar with the given visibility.
    pub fn from_scalar_with_visibility(a: Scalar, visibility: Visibility, party_id: u64) -> (r:
        Self)
        requires
            party_id < 2,
        ensures
            r.wf(),
            r@.val == scalar_val(a),
            r@.vis == visibility,
            r@.party == party_id as int,
    {
        Self { value: Self::base_point_mul(&a), visibility, party_id }
    }

    /// Create a Public point a·G from a scalar.
    pub fn from_public_scalar(a: Scalar, party_id: u64) -> (r: Self)
        requires
            party_id < 2,
        ensures
            r.wf(),
            r@.val == scalar_val(a),
            r@.vis == Visibility::Public,
            r@.party == party_id as int,
    {
        Self::from_scalar_with_visibility(a, Visibility::Public, party_id)
    }

    /// Create a Private point a·G from a scalar.
    pub fn from_private_scalar(a: Scalar, party_id: u64) -> (r: Self)
        requires
            party_id < 2,
        ensures
            r.wf(),
            r@.val == scalar_val(a),
            r@.vis == Visibility::Private,
            r@.party == party_id as int,
    {
        Self::from_scalar_with_visibility(a, Visibility::Private, party_id)
    }

    /// Create a point a·G from a u64 with the given visibility.
    pub fn from_u64_with_visibility(a: u64, visibility: Visibility, party_id: u64) -> (r: Self)
        requires
            party_id < 2,
        ensures
            r.wf(),
            r@.val == a as int,
            r@.vis == visibility,
            r@.party == party_id as int,
    {
        Self { value: Self::base_point_mul_u64(a), visibility, party_id }
    }

    /// Create a Public point a·G from a u64.
    pub fn from_public_u64(a: u64, party_id: u64) -> (r: Self)
        requires
            party_id < 2,
        ensures
            r.wf(),
            r@.val == a as int,
            r@.vis == Visibility::Public,
            r@.party == party_id as int,
    {
        Self::from_u64_with_visibility(a, Visibility::Public, party_id)
    }

    /// Create a Private point a·G from a u64.
    pub fn from_private_u64(a: u64, party_id: u64) -> (r: Self)
        requires
            party_id < 2,
        ensures
            r.wf(),
            r@.val == a as int,
            r@.vis == Visibility::Private,
            r@.party == party_id as int,
    {
        Self::from_u64_with_visibility(a, Visibility::Private, party_id)
    }

    /// The identity point, Public.
    pub fn identity(party_id: u64) -> (r: Self)
        requires
            party_id < 2,
        ensures
            r.wf(),
            r@.val == 0,
            r@.vis == Visibility::Public,
            r@.party == party_id as int,
    {
        Self { value: point_identity(), visibility: Visibility::Public, party_id }
    }

    /// A uniformly random Private point.
    pub fn random(party_id: u64) -> (r: Self)
        requires
            party_id < 2,
        ensures
            r.wf(),
            r@.vis == Visibility::Private,
            r@.party == party_id as int,
    {
        Self { value: point_random(), visibility: Visibility::Private, party_id }
    }

    /// A point derived deterministically from 64 uniform bytes, with the
    /// given visibility.
    pub fn from_uniform_bytes_with_visibility(
        bytes: &[u8; 64],
        visibility: Visibility,
        party_id: u64,
    ) -> (r: Self)
        requires
            party_id < 2,
        ensures
            r.wf(),
            r@.val == crate::curve::uniform_point_val(bytes@),
            r@.vis == visibility,
            r@.party == party_id as int,
    {
        Self { value: crate::curve::point_from_uniform_bytes(bytes), visibility, party_id }
    }

    /// A Private point derived from 64 uniform bytes.
    pub fn from_uniform_bytes(bytes: &[u8; 64], party_id: u64) -> (r: Self)
        requires
            party_id < 2,
        ensures
            r.wf(),
            r@.val == crate::curve::uniform_point_val(bytes@),
            r@.vis == Visibility::Private,
            r@.party == party_id as int,
    {
        Self::from_uniform_bytes_with_visibility(bytes, Visibility::Private, party_id)
    }

    /// The default point: the identity with the given visibility.
    pub fn default_with_visibility(visibility: Visibility, party_id: u64) -> (r: Self)
        requires
            party_id < 2,
        ensures
            r.wf(),
            r@.val == 0,
            r@.vis == visibility,
            r@.party == party_id as int,
    {
        Self { value: point_identity(), visibility, party_id }
    }

    /// The default point: the Public identity.
    pub fn default(party_id: u64) -> (r: Self)
        requires
            party_id < 2,
        ensures
            r.wf(),
            r@.val == 0,
            r@.vis == Visibility::Public,
            r@.party == party_id as int,
    {
        Self::default_with_visibility(Visibility::Public, party_id)
    }

    /// The underlying group element: this party's share, or the plain
    /// value.
    pub fn value(&self) -> (r: RistrettoPoint)
        ensures
            point_val(r) == self@.val,
    {
        self.value
    }

    pub fn visibility(&self) -> (r: Visibility)
        ensures
            r == self@.vis,
    {
        self.visibility
    }

    pub fn party_id(&self) -> (r: u64)
        ensures
            r as int == self@.party,
    {
        self.party_id
    }

    pub fn is_public(&self) -> (r: bool)
        ensures
            r == (self@.vis == Visibility::Public),
    {
        self.visibility.is_public()
    }

    pub fn is_shared(&self) -> (r: bool)
        ensures
            r == (self@.vis == Visibility::Shared),
    {
        self.visibility.is_shared()
    }

    pub fn is_private(&self) -> (r: bool)
        ensures
            r == (self@.vis == Visibility::Private),
    {
        self.visibility.is_private()
    }

    /// Equality of the underlying group elements; visibilities are not
    /// compared.
    pub fn eq(&self, other: &Self) -> (r: bool)
        ensures
            r == (self@.val == other@.val),
    {
        point_eq(&self.value, &other.value)
    }

    /// Negate the point; each party negates its share locally.
    pub fn neg(&self) -> (r: Self)
        requires
            self.wf(),
        ensures
            r.wf(),
            r@.val == fneg(self@.val),
            r@.vis == self@.vis,
            r@.party == self@.party,
    {
        proof {
            lemma_field_ops_in_field(0, self@.val);
        }
        Self {
            value: point_neg(&self.value),
            visibility: self.visibility,
            party_id: self.party_id,
        }
    }

    /// Add two points held by the same party, with the same king rule as
    /// shared scalars: when exactly one operand is Public, only the king
    /// folds it into her share.
    pub fn add(&self, rhs: &Self) -> (r: Self)
        requires
            self.wf(),
            rhs.wf(),
            self@.party == rhs@.party,
        ensures
            r.wf(),
            r@.val == spec_add_val(self@, rhs@),
            r@.vis == Visibility::spec_min(self@.vis, rhs@.vis),
            r@.party == self@.party,
    {
        proof {
            lemma_field_ops_in_field(self@.val, rhs@.val);
        }
        let visibility = Visibility::min_visibility_two(self.visibility, rhs.visibility);
        let am_king = self.party_id == 0;
        if self.visibility.is_public() && rhs.visibility.is_shared() {
            let value = if am_king {
                point_add(&self.value, &rhs.value)
            } else {
                rhs.value
            };
            Self { value, visibility, party_id: self.party_id }
        } else {
            let both_public = self.visibility.is_public() && rhs.visibility.is_public();
            let both_shared = self.visibility.is_shared() && rhs.visibility.is_shared();
            let value = if both_public || both_shared || am_king {
                point_add(&self.value, &rhs.value)
            } else {
                self.value
            };
            Self { value, visibility, party_id: self.party_id }
        }
    }

    /// Subtract: addition of the negated rhs.
    pub fn sub(&self, rhs: &Self) -> (r: Self)
        requires
            self.wf(),
            rhs.wf(),
            self@.party == rhs@.party,
        ensures
            r.wf(),
            r@.val == spec_sub_val(self@, rhs@),
            r@.vis == Visibility::spec_min(self@.vis, rhs@.vis),
            r@.party == self@.party,
    {
        self.add(&rhs.neg())
    }

    /// Multiply by a scalar when at least one operand is Public: both
    /// parties multiply locally, mapping a sharing of P to a sharing of
    /// c·P (or a sharing of c to a sharing of c·P).  A Shared×Shared
    /// product needs a Beaver triple and is `mul`; a Private operand is
    /// rejected.
    pub fn mul_public(&self, rhs: &MpcScalar) -> (r: Result<Self, MpcError>)
        requires
            self.wf(),
            rhs.wf(),
            self@.party == rhs@.party,
        ensures
            r is Ok <==> (self@.vis == Visibility::Public || rhs@.vis == Visibility::Public),
            r is Err ==> r->Err_0 == MpcError::VisibilityError,
            r is Ok ==> ({
                let o = r->Ok_0;
                o.wf() && o@.val == fmul(rhs@.val, self@.val) && o@.vis == Visibility::spec_min(
                    self@.vis,
                    rhs@.vis,
                ) && o@.party == self@.party
            }),
    {
        if !(self.visibility.is_public() || rhs.is_public()) {
            return Err(MpcError::VisibilityError);
        }
        proof {
            lemma_field_ops_in_field(rhs@.val, self@.val);
        }
        let visibility = Visibility::min_visibility_two(self.visibility, rhs.visibility());
        Ok(
            Self {
                value: point_scalar_mul(&self.value, &rhs.value()),
                visibility,
                party_id: self.party_id,
            },
        )
    }

    /// This party's maskings of a Shared scalar × Shared point
    /// multiplication: the scalar masking d = α - a and the point masking
    /// E = P - b·G, the message each party broadcasts so both can open d
    /// and E.
    pub fn beaver_masked(&self, rhs: &MpcScalar, a: &Scalar, b: &Scalar) -> (r: (
        Scalar,
        RistrettoPoint,
    ))
        requires
            self.wf(),
            rhs.wf(),
        ensures
            scalar_val(r.0) == fsub(rhs@.val, scalar_val(*a)),
            point_val(r.1) == fsub(self@.val, scalar_val(*b)),
    {
        let b = scalar_reduced(*b);
        let b_point = Self::base_point_mul(&b);
        let masked_point = crate::curve::point_sub(&self.value, &b_point);
        (scalar_sub(&rhs.value(), a), masked_point)
    }

    /// Multiply a Shared point by a Shared scalar with the Beaver trick,
    /// consuming one triple (a, b, c) of scalar shares with joint
    /// c = a·b.  One scalar open (d = α - a) and one point open
    /// (E = P - b·G) reconstruct the public maskings; the result share is
    /// d·E (king only) + d·(b·G) + a·E + c·G, an additive sharing of α·P.
    pub fn mul(
        &self,
        rhs: &MpcScalar,
        triple: &(Scalar, Scalar, Scalar),
        peer_d: &Scalar,
        peer_e: &RistrettoPoint,
    ) -> (r: Result<Self, MpcError>)
        requires
            self.wf(),
            rhs.wf(),
            self@.party == rhs@.party,
        ensures
            r is Ok <==> (self@.vis == Visibility::Shared && rhs@.vis == Visibility::Shared),
            r is Err ==> r->Err_0 == MpcError::VisibilityError,
            r is Ok ==> ({
                let o = r->Ok_0;
                let d = fadd(fsub(rhs@.val, scalar_val(triple.0)), scalar_val(*peer_d));
                let e = fadd(fsub(self@.val, scalar_val(triple.1)), point_val(*peer_e));
                o.wf() && o@.val == spec_beaver_share(
                    d,
                    e,
                    scalar_val(triple.0),
                    scalar_val(triple.1),
                    scalar_val(triple.2),
                    self@.party == 0,
                ) && o@.vis == Visibility::Shared && o@.party == self@.party
            }),
    {
        if !(self.visibility.is_shared() && rhs.is_shared()) {
            return Err(MpcError::VisibilityError);
        }
        let a = scalar_reduced(triple.0);
        let b = scalar_reduced(triple.1);
        let c = scalar_reduced(triple.2);
        let (my_d, my_e) = self.beaver_masked(rhs, &a, &b);
        let d = scalar_add(&my_d, peer_d);
        let e = point_add(&my_e, peer_e);
        // d·(b·G) + a·E + c·G, and the king adds d·E
        let b_point = Self::base_point_mul(&b);
        let d_b = point_scalar_mul(&b_point, &d);
        let a_e = point_scalar_mul(&e, &a);
        let c_point = Self::base_point_mul(&c);
        let base = point_add(&point_add(&d_b, &a_e), &c_point);
        let value = if self.party_id == 0 {
            point_add(&point_scalar_mul(&e, &d), &base)
        } else {
            base
        };
        proof {
            vstd::arithmetic::mul::lemma_mul_is_commutative(scalar_val(a), point_val(e));
            lemma_field_ops_in_field(self@.val, rhs@.val);
        }
        Ok(Self { value, visibility: Visibility::Shared, party_id: self.party_id })
    }

    /// Share a Private point: sample a uniform group element R, keep
    /// P - R as this party's share, and return R as the peer's share.
    pub fn share_secret(&self) -> (r: Result<(Self, RistrettoPoint), MpcError>)
        requires
            self.wf(),
        ensures
            r is Ok <==> self@.vis == Visibility::Private,
            r is Err ==> r->Err_0 == MpcError::VisibilityError,
            r is Ok ==> ({
                let (s, m) = r->Ok_0;
                s.wf() && in_field(point_val(m)) && s@.val == fsub(self@.val, point_val(m))
                    && s@.vis == Visibility::Shared && s@.party == self@.party
            }),
    {
        if !self.visibility.is_private() {
            return Err(MpcError::VisibilityError);
        }
        let blinder = point_random();
        proof {
            lemma_field_ops_in_field(self@.val, point_val(blinder));
        }
        let share = crate::curve::point_sub(&self.value, &blinder);
        Ok(
            (
                Self { value: share, visibility: Visibility::Shared, party_id: self.party_id },
                blinder,
            ),
        )
    }

    /// Receive this party's share of a point the peer is sharing.
    pub fn receive_value(share: RistrettoPoint, party_id: u64) -> (r: Self)
        requires
            party_id < 2,
        ensures
            r.wf(),
            r@.val == point_val(share),
            r@.vis == Visibility::Shared,
            r@.party == party_id as int,
    {
        let value = point_reduced(share);
        Self { value, visibility: Visibility::Shared, party_id }
    }

    /// Open a point: on a Public value, a clone; on a Shared value, both
    /// parties broadcast their share and the result is the group sum.
    /// Opening a Private value is a visibility error.
    pub fn open(&self, peer_share: &RistrettoPoint) -> (r: Result<Self, MpcError>)
        requires
            self.wf(),
        ensures
            r is Err <==> self@.vis == Visibility::Private,
            r is Err ==> r->Err_0 == MpcError::VisibilityError,
            self@.vis == Visibility::Public ==> r is Ok && r->Ok_0@ == self@ && r->Ok_0.wf(),
            self@.vis == Visibility::Shared ==> r is Ok && ({
                let o = r->Ok_0;
                o.wf() && o@.val == fadd(self@.val, point_val(*peer_share)) && o@.vis
                    == Visibility::Public && o@.party == self@.party
            }),
    {
        if self.visibility.is_private() {
            return Err(MpcError::VisibilityError);
        }
        if self.visibility.is_public() {
            return Ok(*self);
        }
        proof {
            lemma_field_ops_in_field(self@.val, point_val(*peer_share));
        }
        Ok(
            Self {
                value: point_add(&self.value, peer_share),
                visibility: Visibility::Public,
                party_id: self.party_id,
            },
        )
    }

    /// The authenticated reveal of a Shared point: each party commits to
    /// its share (`RistrettoPointCommitment::commit`), the commitments
    /// cross, then the openings; the peer's opening is verified against
    /// its earlier commitment.
    pub fn commit_and_open(
        &self,
        peer_commitment: &RistrettoPoint,
        peer_blinding: &Scalar,
        peer_value: &RistrettoPoint,
    ) -> (r: Result<Self, MpcError>)
        requires
            self.wf(),
        ensures
            r is Ok <==> (self@.vis == Visibility::Shared && point_val(*peer_commitment)
                == spec_pedersen_point(point_val(*peer_value), scalar_val(*peer_blinding))),
            self@.vis != Visibility::Shared ==> r == Result::<Self, MpcError>::Err(
                MpcError::VisibilityError,
            ),
            r is Err && self@.vis == Visibility::Shared ==> r == Result::<Self, MpcError>::Err(
                MpcError::AuthenticationError,
            ),
            r is Ok ==> ({
                let o = r->Ok_0;
                o.wf() && o@.val == fadd(self@.val, point_val(*peer_value)) && o@.vis
                    == Visibility::Public && o@.party == self@.party
            }),
    {
        if !self.visibility.is_shared() {
            return Err(MpcError::VisibilityError);
        }
        if !RistrettoPointCommitment::verify_from_values(
            peer_commitment,
            peer_blinding,
            peer_value,
        ) {
            return Err(MpcError::AuthenticationError);
        }
        proof {
            lemma_field_ops_in_field(self@.val, point_val(*peer_value));
        }
        Ok(
            Self {
                value: point_add(&self.value, peer_value),
                visibility: Visibility::Public,
                party_id: self.party_id,
            },
        )
    }

    /// Σ cᵢ·Pᵢ over public scalars and possibly-shared points: a left
    /// fold of `add` over the per-term products.  Empty inputs are an
    /// arithmetic error.
    pub fn multiscalar_mul(scalars: &Vec<Scalar>, points: &Vec<MpcRistrettoPoint>) -> (r: Result<
        Self,
        MpcError,
    >)
        requires
            scalars@.len() == points@.len(),
            forall|i: int|
                0 <= i < points@.len() ==> (#[trigger] points@[i]).wf() && points@[i]@.party
                    == points@[0]@.party,
        ensures
            r is Ok <==> points@.len() > 0,
            r is Err ==> r->Err_0 == MpcError::ArithmeticError,
            r is Ok ==> ({
                let o = r->Ok_0;
                o.wf() && o@ == spec_msm(
                    scalars@,
                    points@,
                    points@[0]@.party,
                    points@.len() as int,
                )
            }),
    {
        let n = points.len();
        if n == 0 {
            return Err(MpcError::ArithmeticError);
        }
        let party_id = points[0].party_id();
        let mut acc = Self::identity(party_id);
        let mut i: usize = 0;
        while i < n
            invariant
                n == points@.len(),
                scalars@.len() == n,
                n > 0,
                i <= n,
                party_id as int == points@[0]@.party,
                party_id < 2,
                forall|j: int|
                    0 <= j < points@.len() ==> (#[trigger] points@[j]).wf() && points@[j]@.party
                        == points@[0]@.party,
                acc.wf(),
                acc@.party == party_id as int,
                acc@ == spec_msm(scalars@, points@, party_id as int, i as int),
            decreases n - i,
        {
            let term = match points[i].mul_public(
                &MpcScalar::from_public_scalar(scalars[i], party_id),
            ) {
                Ok(v) => v,
                Err(_) => unreached(),
            };
            acc = acc.add(&term);
            i = i + 1;
        }
        Ok(acc)
    }

    /// Compress each party's share independently into its canonical
    /// 32-byte encoding.
    pub fn compress(&self) -> (r: MpcCompressedRistretto)
        requires
            self.wf(),
        ensures
            r.wf(),
            bytes_decode_ok(r@.bytes),
            bytes_decode_val(r@.bytes) == self@.val,
            r@.vis == self@.vis,
            r@.party == self@.party,
    {
        MpcCompressedRistretto {
            value: point_compress(&self.value),
            visibility: self.visibility,
            party_id: self.party_id,
        }
    }
}

/// The mathematical model of a compressed point handle: the 32 encoding
/// bytes, the visibility and the party.
pub ghost struct CompressedView {
    pub bytes: Seq<u8>,
    pub vis: Visibility,
    pub party: int,
}

/// A compressed Ristretto point allocated in the MPC network.
#[derive(Clone, Copy)]
pub struct MpcCompressedRistretto {
    value: CompressedRistretto,
    visibility: Visibility,
    party_id: u64,
}

impl View for MpcCompressedRistretto {
    type V = CompressedView;

    closed spec fn view(&self) -> CompressedView {
        CompressedView {
            bytes: compressed_bytes(self.value),
            vis: self.visibility,
            party: self.party_id as int,
        }
    }
}

impl MpcCompressedRistretto {
    pub open spec fn wf(self) -> bool {
        0 <= self@.party < 2
    }

    /// Wrap an existing compressed point with the given visibility.
    pub fn from_compressed_ristretto_with_visibility(
        a: CompressedRistretto,
        visibility: Visibility,
        party_id: u64,
    ) -> (r: Self)
        requires
            party_id < 2,
        ensures
            r.wf(),
            r@.bytes == compressed_bytes(a),
            r@.vis == visibility,
            r@.party == party_id as int,
    {
        Self { value: a, visibility, party_id }
    }

    /// Wrap a Public compressed point.
    pub fn from_public_compressed_ristretto(a: CompressedRistretto, party_id: u64) -> (r: Self)
        requires
            party_id < 2,
        ensures
            r.wf(),
            r@.bytes == compressed_bytes(a),
            r@.vis == Visibility::Public,
            r@.party == party_id as int,
    {
        Self::from_compressed_ristretto_with_visibility(a, Visibility::Public, party_id)
    }

    /// Wrap a Private compressed point.
    pub fn from_private_compressed_ristretto(a: CompressedRistretto, party_id: u64) -> (r: Self)
        requires
            party_id < 2,
        ensures
            r.wf(),
            r@.bytes == compressed_bytes(a),
            r@.vis == Visibility::Private,
            r@.party == party_id as int,
    {
        Self::from_compressed_ristretto_with_visibility(a, Visibility::Private, party_id)
    }

    /// Construct a compressed point from 32 bytes with the given
    /// visibility.
    pub fn from_bytes_with_visibility(buf: &[u8; 32], visibility: Visibility, party_id: u64) -> (r:
        Self)
        requires
            party_id < 2,
        ensures
            r.wf(),
            r@.bytes == buf@,
            r@.vis == visibility,
            r@.party == party_id as int,
    {
        Self { value: compressed_from_bytes(buf), visibility, party_id }
    }

    /// Construct a Public compressed point from 32 bytes.
    pub fn from_public_bytes(buf: &[u8; 32], party_id: u64) -> (r: Self)
        requires
            party_id < 2,
        ensures
            r.wf(),
            r@.bytes == buf@,
            r@.vis == Visibility::Public,
            r@.party == party_id as int,
    {
        Self::from_bytes_with_visibility(buf, Visibility::Public, party_id)
    }

    /// Construct a Private compressed point from 32 bytes.
    pub fn from_private_bytes(buf: &[u8; 32], party_id: u64) -> (r: Self)
        requires
            party_id < 2,
        ensures
            r.wf(),
            r@.bytes == buf@,
            r@.vis == Visibility::Private,
            r@.party == party_id as int,
    {
        Self::from_bytes_with_visibility(buf, Visibility::Private, party_id)
    }

    /// Recover the shared point if the bytes are a valid canonical
    /// encoding; `None` signals an invalid encoding and lets the caller
    /// choose how to report it.  Decompressing a compressed share yields
    /// back the same share, so compression commutes with opening.
    pub fn decompress(&self) -> (r: Option<MpcRistrettoPoint>)
        requires
            self.wf(),
        ensures
            r is Some <==> bytes_decode_ok(self@.bytes),
            r is Some ==> ({
                let o = r->Some_0;
                o.wf() && o@.val == bytes_decode_val(self@.bytes) && o@.vis == self@.vis
                    && o@.party == self@.party
            }),
    {
        match compressed_decompress(&self.value) {
            Some(p) => Some(
                MpcRistrettoPoint {
                    value: p,
                    visibility: self.visibility,
                    party_id: self.party_id,
                },
            ),
            None => None,
        }
    }

    pub fn visibility(&self) -> (r: Visibility)
        ensures
            r == self@.vis,
    {
        self.visibility
    }

    pub fn party_id(&self) -> (r: u64)
        ensures
            r as int == self@.party,
    {
        self.party_id
    }

    /// The 32 encoding bytes.
    pub fn as_bytes(&self) -> (r: [u8; 32])
        ensures
            r@ == self@.bytes,
    {
        compressed_to_bytes(&self.value)
    }

    /// The compressed identity point, Public: 32 zero bytes.
    pub fn identity(party_id: u64) -> (r: Self)
        requires
            party_id < 2,
        ensures
            r.wf(),
            r@.bytes =~= Seq::new(32, |i: int| 0u8),
            r@.vis == Visibility::Public,
            r@.party == party_id as int,
    {
        let buf: [u8; 32] = [0u8; 32];
        proof {
            assert(buf@ =~= Seq::new(32, |i: int| 0u8));
        }
        Self::from_bytes_with_visibility(&buf, Visibility::Public, party_id)
    }

    /// Whether this is the canonical encoding of the identity: 32 zero
    /// bytes.
    pub fn is_identity(&self) -> (r: bool)
        ensures
            r == (self@.bytes =~= Seq::new(32, |i: int| 0u8)),
    {
        let bytes = self.as_bytes();
        let mut i: usize = 0;
        let mut all_zero = true;
        while i < 32
            invariant
                i <= 32,
                bytes@ == self@.bytes,
                bytes@.len() == 32,
                all_zero == (forall|j: int| 0 <= j < i ==> bytes@[j] == 0u8),
            decreases 32 - i,
        {
            if bytes[i] != 0u8 {
                all_zero = false;
            }
            i = i + 1;
        }
        proof {
            if all_zero {
                assert(self@.bytes =~= Seq::new(32, |j: int| 0u8));
            }
        }
        all_zero
    }
}

} // verus!
