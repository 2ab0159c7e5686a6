//! An authenticated shared scalar: a shared value carried together with a
//! shared MAC under the session MAC key [α].  The MAC share additively
//! shares α·v, so a tampering peer that shifts its value share is caught
//! by the MAC-checked open, which reveals the value and then verifies,
//! through commit-and-open, that the parties' check shares
//! cᵢ = mᵢ − αᵢ·v̂ sum to zero.

use crate::commitment::{spec_pedersen, RistrettoCommitment};
use crate::curve::{point_val, scalar_val};
use crate::error::MpcError;
use crate::modular::{fadd, fmul, fneg, fsub, in_field};
use crate::mpc_scalar::{spec_add_val, spec_sub_val, MpcScalar, ShareView};
use crate::visibility::Visibility;
use curve25519_dalek::ristretto::RistrettoPoint;
use curve25519_dalek::scalar::Scalar;
use vstd::prelude::*;

verus! {

/// The mathematical model of one party's authenticated handle: the views
/// of the value share, the MAC share and the key share.
pub ghost struct AuthView {
    pub value: ShareView,
    pub mac: ShareView,
    pub key: ShareView,
}

/// A shared scalar together with a share of its MAC α·v and a handle on
/// this party's share of the session MAC key α.
#[derive(Clone, Copy)]
pub struct AuthenticatedScalar {
    value: MpcScalar,
    mac_share: MpcScalar,
    key_share: MpcScalar,
}

impl View for AuthenticatedScalar {
    type V = AuthView;

    closed spec fn view(&self) -> AuthView {
        AuthView { value: self.value@, mac: self.mac_share@, key: self.key_share@ }
    }
}

impl AuthenticatedScalar {
    /// Well-formedness: the three components are well formed, held by
    /// the same party, and the MAC and key shares are Shared.
    pub open spec fn wf(self) -> bool {
        &&& in_field(self@.value.val)
        &&& in_field(self@.mac.val)
        &&& in_field(self@.key.val)
        &&& 0 <= self@.value.party < 2
        &&& self@.mac.party == self@.value.party
        &&& self@.key.party == self@.value.party
        &&& self@.mac.vis == Visibility::Shared
        &&& self@.key.vis == Visibility::Shared
    }

    /// Assemble an authenticated value from a shared value, its MAC
    /// share and the key share; the MAC invariant (that the two parties'
    /// MAC shares reconstruct α·v) is the creating protocol's to
    /// establish.
    pub fn from_parts(value: MpcScalar, mac_share: MpcScalar, key_share: MpcScalar) -> (r: Self)
        requires
            value.wf(),
            mac_share.wf(),
            key_share.wf(),
            mac_share@.party == value@.party,
            key_share@.party == value@.party,
            mac_share@.vis == Visibility::Shared,
            key_share@.vis == Visibility::Shared,
        ensures
            r.wf(),
            r@.value == value@,
            r@.mac == mac_share@,
            r@.key == key_share@,
    {
        Self { value, mac_share, key_share }
    }

    /// The underlying shared value.
    pub fn value(&self) -> (r: MpcScalar)
        ensures
            r@ == self@.value,
    {
        self.value
    }

    /// This party's MAC share.
    pub fn mac(&self) -> (r: MpcScalar)
        ensures
            r@ == self@.mac,
    {
        self.mac_share
    }

    /// This party's share of the session MAC key.
    pub fn key_share(&self) -> (r: MpcScalar)
        ensures
            r@ == self@.key,
    {
        self.key_share
    }

    pub fn is_public(&self) -> (r: bool)
        ensures
            r == (self@.value.vis == Visibility::Public),
    {
        self.value.is_public()
    }

    pub fn is_shared(&self) -> (r: bool)
        ensures
            r == (self@.value.vis == Visibility::Shared),
    {
        self.value.is_shared()
    }

    /// Add two authenticated values: values add and MAC shares add, so
    /// the MAC invariant is preserved by linearity.
    pub fn add(&self, rhs: &Self) -> (r: Self)
        requires
            self.wf(),
            rhs.wf(),
            self@.value.party == rhs@.value.party,
        ensures
            r.wf(),
            r@.value.val == spec_add_val(self@.value, rhs@.value),
            r@.value.vis == Visibility::spec_min(self@.value.vis, rhs@.value.vis),
            r@.mac.val == fadd(self@.mac.val, rhs@.mac.val),
            r@.key == self@.key,
            r@.value.party == self@.value.party,
    {
        Self {
            value: self.value.add(&rhs.value),
            mac_share: self.mac_share.add(&rhs.mac_share),
            key_share: self.key_share,
        }
    }

    /// Add a public scalar: the king folds it into her value share while
    /// both parties add α·p to their MAC shares, using the key share
    /// locally.
    pub fn add_public(&self, rhs: &MpcScalar) -> (r: Result<Self, MpcError>)
        requires
            self.wf(),
            rhs.wf(),
            self@.value.party == rhs@.party,
        ensures
            r is Ok <==> rhs@.vis == Visibility::Public,
            r is Err ==> r->Err_0 == MpcError::VisibilityError,
            r is Ok ==> ({
                let o = r->Ok_0;
                o.wf() && o@.value.val == spec_add_val(self@.value, rhs@) && o@.value.vis
                    == Visibility::spec_min(self@.value.vis, Visibility::Public) && o@.mac.val
                    == fadd(self@.mac.val, fmul(self@.key.val, rhs@.val)) && o@.key == self@.key
                    && o@.value.party == self@.value.party
            }),
    {
        if !rhs.is_public() {
            return Err(MpcError::VisibilityError);
        }
        let key_times_p = match self.key_share.mul_public(rhs) {
            Ok(v) => v,
            Err(_) => unreached(),
        };
        Ok(
            Self {
                value: self.value.add(rhs),
                mac_share: self.mac_share.add(&key_times_p),
                key_share: self.key_share,
            },
        )
    }

    /// Negate: value and MAC share are both negated.
    pub fn neg(&self) -> (r: Self)
        requires
            self.wf(),
        ensures
            r.wf(),
            r@.value.val == fneg(self@.value.val),
            r@.value.vis == self@.value.vis,
            r@.mac.val == fneg(self@.mac.val),
            r@.key == self@.key,
            r@.value.party == self@.value.party,
    {
        Self {
            value: self.value.neg(),
            mac_share: self.mac_share.neg(),
            key_share: self.key_share,
        }
    }

    /// Subtract: addition of the negated rhs.
    pub fn sub(&self, rhs: &Self) -> (r: Self)
        requires
            self.wf(),
            rhs.wf(),
            self@.value.party == rhs@.value.party,
        ensures
            r.wf(),
            r@.value.val == spec_sub_val(self@.value, rhs@.value),
            r@.value.vis == Visibility::spec_min(self@.value.vis, rhs@.value.vis),
            r@.mac.val == fadd(self@.mac.val, fneg(rhs@.mac.val)),
            r@.key == self@.key,
            r@.value.party == self@.value.party,
    {
        self.add(&rhs.neg())
    }

    /// Multiply by a public scalar: both the value and the MAC share are
    /// scaled, preserving the MAC invariant.
    pub fn mul_public(&self, rhs: &MpcScalar) -> (r: Result<Self, MpcError>)
        requires
            self.wf(),
            rhs.wf(),
            self@.value.party == rhs@.party,
        ensures
            r is Ok <==> rhs@.vis == Visibility::Public,
            r is Err ==> r->Err_0 == MpcError::VisibilityError,
            r is Ok ==> ({
                let o = r->Ok_0;
                o.wf() && o@.value.val == fmul(self@.value.val, rhs@.val) && o@.value.vis
                    == Visibility::spec_min(self@.value.vis, Visibility::Public) && o@.mac.val
                    == fmul(self@.mac.val, rhs@.val) && o@.key == self@.key && o@.value.party
                    == self@.value.party
            }),
    {
        if !rhs.is_public() {
            return Err(MpcError::VisibilityError);
        }
        let value = match self.value.mul_public(rhs) {
            Ok(v) => v,
            Err(_) => unreached(),
        };
        let mac_share = match self.mac_share.mul_public(rhs) {
            Ok(v) => v,
            Err(_) => unreached(),
        };
        Ok(Self { value, mac_share, key_share: self.key_share })
    }

    /// This party's MAC-check share for an opened value v̂:
    /// cᵢ = mᵢ − αᵢ·v̂.  The two parties' check shares must sum to zero;
    /// each party commits to its share before revealing it, so the peer
    /// cannot adapt its contribution.
    pub fn mac_check_share(&self, opened: &Scalar) -> (r: Scalar)
        requires
            self.wf(),
        ensures
            scalar_val(r) == fsub(self@.mac.val, fmul(self@.key.val, scalar_val(*opened))),
    {
        let key_v = crate::curve::scalar_mul(&self.key_share.value(), opened);
        crate::curve::scalar_sub(&self.mac_share.value(), &key_v)
    }

    /// The MAC-checked open.  The value shares have been exchanged and
    /// reconstruct v̂ = vᵢ + peer_value_share; each party then derives
    /// its check share cᵢ = mᵢ − αᵢ·v̂, commits to it, and the
    /// commitments and openings cross.  The open is accepted only if the
    /// peer's opening verifies against its commitment and the two check
    /// shares sum to zero; any other outcome is an authentication
    /// failure, terminal for the session.
    pub fn open_authenticated(
        &self,
        peer_value_share: &Scalar,
        peer_commitment: &RistrettoPoint,
        peer_blinding: &Scalar,
        peer_check: &Scalar,
    ) -> (r: Result<MpcScalar, MpcError>)
        requires
            self.wf(),
        ensures
            ({
                let vhat = fadd(self@.value.val, scalar_val(*peer_value_share));
                let my_check = fsub(self@.mac.val, fmul(self@.key.val, vhat));
                &&& (r is Ok <==> (self@.value.vis == Visibility::Shared && point_val(
                    *peer_commitment,
                ) == spec_pedersen(scalar_val(*peer_check), scalar_val(*peer_blinding)) && fadd(
                    my_check,
                    scalar_val(*peer_check),
                ) == 0))
                &&& (self@.value.vis != Visibility::Shared ==> r == Result::<
                    MpcScalar,
                    MpcError,
                >::Err(MpcError::VisibilityError))
                &&& (r is Err && self@.value.vis == Visibility::Shared ==> r == Result::<
                    MpcScalar,
                    MpcError,
                >::Err(MpcError::AuthenticationError))
                &&& (r is Ok ==> ({
                    let o = r->Ok_0;
                    o.wf() && o@.val == vhat && o@.vis == Visibility::Public && o@.party
                        == self@.value.party
                }))
            }),
    {
        if !self.value.is_shared() {
            return Err(MpcError::VisibilityError);
        }
        let opened = match self.value.open(peer_value_share) {
            Ok(v) => v,
            Err(_) => unreached(),
        };
        let my_check = self.mac_check_share(&opened.value());
        if !RistrettoCommitment::verify_from_values(peer_commitment, peer_blinding, peer_check) {
            return Err(MpcError::AuthenticationError);
        }
        let check_sum = crate::curve::scalar_add(&my_check, peer_check);
        let zero = crate::curve::scalar_from_u64(0);
        if !crate::curve::scalar_eq(&check_sum, &zero) {
            return Err(MpcError::AuthenticationError);
        }
        Ok(opened)
    }
}

} // verus!
