//! An authenticated shared Ristretto point: a shared group element
//! carried together with a shared MAC under the session MAC key [α].
//! The MAC share additively shares α·P, and the MAC-checked open mirrors
//! the scalar one with group operations in place of field operations: the
//! check shares Cᵢ = Mᵢ − αᵢ·P̂ must sum to the identity.

use crate::commitment::{spec_pedersen_point, RistrettoPointCommitment};
use crate::curve::{point_add, point_eq, point_identity, point_scalar_mul, point_val, scalar_val};
use crate::error::MpcError;
use crate::modular::{fadd, fmul, fneg, fsub, in_field};
use crate::mpc_ristretto::MpcRistrettoPoint;
use crate::mpc_scalar::{spec_add_val, spec_sub_val, MpcScalar, ShareView};
use crate::visibility::Visibility;
use curve25519_dalek::ristretto::RistrettoPoint;
use curve25519_dalek::scalar::Scalar;
use vstd::prelude::*;

verus! {

/// The mathematical model of one party's authenticated point handle.
pub ghost struct AuthPointView {
    pub value: ShareView,
    pub mac: ShareView,
    pub key: ShareView,
}

/// A shared point together with a share of its MAC α·P and a handle on
/// this party's share of the session MAC key α.
#[derive(Clone, Copy)]
pub struct AuthenticatedRistretto {
    value: MpcRistrettoPoint,
    mac_share: MpcRistrettoPoint,
    key_share: MpcScalar,
}

impl View for AuthenticatedRistretto {
    type V = AuthPointView;

    closed spec fn view(&self) -> AuthPointView {
        AuthPointView { value: self.value@, mac: self.mac_share@, key: self.key_share@ }
    }
}

impl AuthenticatedRistretto {
    /// Well-formedness: the components are well formed, held by the same
    /// party, and the MAC and key shares are Shared.
    pub open spec fn wf(self) -> bool {
        &&& in_field(self@.value.val)
        &&& in_field(self@.mac.val)
        &&& in_field(self@.key.val)
        &&& 0 <= self@.value.party < 2
        &&& self@.mac.party == self@.value.party
        &&& self@.key.party == self@.value.party
        &&& self@.mac.vis == Visibility::Shared
        &&& self@.key.vis == Visibility::Shared
    }

    /// Assemble an authenticated point from its parts; the MAC invariant
    /// is the creating protocol's to establish.
    pub fn from_parts(
        value: MpcRistrettoPoint,
        mac_share: MpcRistrettoPoint,
        key_share: MpcScalar,
    ) -> (r: Self)
        requires
            value.wf(),
            mac_share.wf(),
            key_share.wf(),
            mac_share@.party == value@.party,
            key_share@.party == value@.party,
            mac_share@.vis == Visibility::Shared,
            key_share@.vis == Visibility::Shared,
        ensures
            r.wf(),
            r@.value == value@,
            r@.mac == mac_share@,
            r@.key == key_share@,
    {
        Self { value, mac_share, key_share }
    }

    /// The underlying shared point.
    pub fn value(&self) -> (r: MpcRistrettoPoint)
        ensures
            r@ == self@.value,
    {
        self.value
    }

    /// This party's MAC share.
    pub fn mac(&self) -> (r: MpcRistrettoPoint)
        ensures
            r@ == self@.mac,
    {
        self.mac_share
    }

    /// This party's share of the session MAC key.
    pub fn key_share(&self) -> (r: MpcScalar)
        ensures
            r@ == self@.key,
    {
        self.key_share
    }

    pub fn is_shared(&self) -> (r: bool)
        ensures
            r == (self@.value.vis == Visibility::Shared),
    {
        self.value.is_shared()
    }

    /// Add two authenticated points: values add and MAC shares add.
    pub fn add(&self, rhs: &Self) -> (r: Self)
        requires
            self.wf(),
            rhs.wf(),
            self@.value.party == rhs@.value.party,
        ensures
            r.wf(),
            r@.value.val == spec_add_val(self@.value, rhs@.value),
            r@.value.vis == Visibility::spec_min(self@.value.vis, rhs@.value.vis),
            r@.mac.val == fadd(self@.mac.val, rhs@.mac.val),
            r@.key == self@.key,
            r@.value.party == self@.value.party,
    {
        Self {
            value: self.value.add(&rhs.value),
            mac_share: self.mac_share.add(&rhs.mac_share),
            key_share: self.key_share,
        }
    }

    /// Negate: value and MAC share are both negated.
    pub fn neg(&self) -> (r: Self)
        requires
            self.wf(),
        ensures
            r.wf(),
            r@.value.val == fneg(self@.value.val),
            r@.value.vis == self@.value.vis,
            r@.mac.val == fneg(self@.mac.val),
            r@.key == self@.key,
            r@.value.party == self@.value.party,
    {
        Self {
            value: self.value.neg(),
            mac_share: self.mac_share.neg(),
            key_share: self.key_share,
        }
    }

    /// Subtract: addition of the negated rhs.
    pub fn sub(&self, rhs: &Self) -> (r: Self)
        requires
            self.wf(),
            rhs.wf(),
            self@.value.party == rhs@.value.party,
        ensures
            r.wf(),
            r@.value.val == spec_sub_val(self@.value, rhs@.value),
            r@.value.vis == Visibility::spec_min(self@.value.vis, rhs@.value.vis),
            r@.mac.val == fadd(self@.mac.val, fneg(rhs@.mac.val)),
            r@.key == self@.key,
            r@.value.party == self@.value.party,
    {
        self.add(&rhs.neg())
    }

    /// Multiply by a public scalar: value and MAC share are both scaled.
    pub fn mul_public(&self, rhs: &MpcScalar) -> (r: Result<Self, MpcError>)
        requires
            self.wf(),
            rhs.wf(),
            self@.value.party == rhs@.party,
        ensures
            r is Ok <==> rhs@.vis == Visibility::Public,
            r is Err ==> r->Err_0 == MpcError::VisibilityError,
            r is Ok ==> ({
                let o = r->Ok_0;
                o.wf() && o@.value.val == fmul(rhs@.val, self@.value.val) && o@.value.vis
                    == Visibility::spec_min(self@.value.vis, Visibility::Public) && o@.mac.val
                    == fmul(rhs@.val, self@.mac.val) && o@.key == self@.key && o@.value.party
                    == self@.value.party
            }),
    {
        if !rhs.is_public() {
            return Err(MpcError::VisibilityError);
        }
        let value = match self.value.mul_public(rhs) {
            Ok(v) => v,
            Err(_) => unreached(),
        };
        let mac_share = match self.mac_share.mul_public(rhs) {
            Ok(v) => v,
            Err(_) => unreached(),
        };
        Ok(Self { value, mac_share, key_share: self.key_share })
    }

    /// This party's MAC-check share for an opened point P̂:
    /// Cᵢ = Mᵢ − αᵢ·P̂.
    pub fn mac_check_share(&self, opened: &RistrettoPoint) -> (r: RistrettoPoint)
        requires
            self.wf(),
        ensures
            point_val(r) == fsub(self@.mac.val, fmul(self@.key.val, point_val(*opened))),
    {
        let key_p = point_scalar_mul(opened, &self.key_share.value());
        crate::curve::point_sub(&self.mac_share.value(), &key_p)
    }

    /// The MAC-checked open of a shared point: the value shares have been
    /// exchanged and reconstruct P̂; each party derives its check share,
    /// commits to it, and the openings cross.  Accepted only if the
    /// peer's opening verifies and the check shares sum to the identity.
    pub fn open_authenticated(
        &self,
        peer_value_share: &RistrettoPoint,
        peer_commitment: &RistrettoPoint,
        peer_blinding: &Scalar,
        peer_check: &RistrettoPoint,
    ) -> (r: Result<MpcRistrettoPoint, MpcError>)
        requires
            self.wf(),
        ensures
            ({
                let phat = fadd(self@.value.val, point_val(*peer_value_share));
                let my_check = fsub(self@.mac.val, fmul(self@.key.val, phat));
                &&& (r is Ok <==> (self@.value.vis == Visibility::Shared && point_val(
                    *peer_commitment,
                ) == spec_pedersen_point(point_val(*peer_check), scalar_val(*peer_blinding))
                    && fadd(my_check, point_val(*peer_check)) == 0))
                &&& (self@.value.vis != Visibility::Shared ==> r == Result::<
                    MpcRistrettoPoint,
                    MpcError,
                >::Err(MpcError::VisibilityError))
                &&& (r is Err && self@.value.vis == Visibility::Shared ==> r == Result::<
                    MpcRistrettoPoint,
                    MpcError,
                >::Err(MpcError::AuthenticationError))
                &&& (r is Ok ==> ({
                    let o = r->Ok_0;
                    o.wf() && o@.val == phat && o@.vis == Visibility::Public && o@.party
                        == self@.value.party
                }))
            }),
    {
        if !self.value.is_shared() {
            return Err(MpcError::VisibilityError);
        }
        let opened = match self.value.open(peer_value_share) {
            Ok(v) => v,
            Err(_) => unreached(),
        };
        let my_check = self.mac_check_share(&opened.value());
        if !RistrettoPointCommitment::verify_from_values(
            peer_commitment,
            peer_blinding,
            peer_check,
        ) {
            return Err(MpcError::AuthenticationError);
        }
        let check_sum = point_add(&my_check, peer_check);
        if !point_eq(&check_sum, &point_identity()) {
            return Err(MpcError::AuthenticationError);
        }
        Ok(opened)
    }
}

} // verus!
