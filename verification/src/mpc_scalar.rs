//! A scalar of the Curve25519 scalar field allocated in the MPC network:
//! this party's share of (or plain copy of) a field element, together with
//! its visibility.
//!
//! Purely local operations (construction, addition, subtraction, negation,
//! multiplication by a public factor) are ordinary methods.  Operations
//! that exchange messages with the peer are written as pure functions of
//! the local state and the peer's messages: the caller sends what the
//! documented protocol prescribes and passes in what it received.  The
//! `two_party` module composes both parties' halves and proves the joint
//! protocol correct.

use crate::commitment::{spec_pedersen, RistrettoCommitment};
use crate::curve::{
    bytes_le_val, point_val, scalar_add, scalar_eq, scalar_from_u64, scalar_mul, scalar_neg,
    scalar_random, scalar_reduced, scalar_sub, scalar_to_bytes, scalar_val,
};
use crate::error::MpcError;
use crate::modular::{fadd, fmul, fneg, fsub, in_field, lemma_field_ops_in_field};
use crate::visibility::Visibility;
use curve25519_dalek::ristretto::RistrettoPoint;
use curve25519_dalek::scalar::Scalar;
use vstd::prelude::*;

verus! {

/// The mathematical model of one party's handle on a scalar: the field
/// element held locally (a share, for a Shared value), its visibility and
/// the party holding it.
pub ghost struct ShareView {
    pub val: int,
    pub vis: Visibility,
    pub party: int,
}

/// The local result value of an addition, before reduction of the two
/// parties' results to a joint value.  When both operands are Public or
/// both are Shared each party adds locally; when exactly one operand is
/// Public only the king (party 0) folds it into her share, which amounts
/// to sharing the public value as (p, 0).
pub open spec fn spec_add_val(x: ShareView, y: ShareView) -> int {
    if x.vis == Visibility::Public && y.vis == Visibility::Shared {
        // symmetric to the shared-plus-public case below
        if x.party == 0 {
            fadd(x.val, y.val)
        } else {
            y.val
        }
    } else if (x.vis == Visibility::Public && y.vis == Visibility::Public) || (x.vis
        == Visibility::Shared && y.vis == Visibility::Shared) || x.party == 0 {
        fadd(x.val, y.val)
    } else {
        x.val
    }
}

/// The local result value of a subtraction: addition of the negated rhs.
pub open spec fn spec_sub_val(x: ShareView, y: ShareView) -> int {
    spec_add_val(x, ShareView { val: fneg(y.val), ..y })
}

/// One party's result share of a Beaver multiplication, given the two
/// opened maskings d = x - a and e = y - b and this party's triple shares
/// (a, b, c).  Only the king adds the public cross term d·e, so that the
/// two parties' shares sum to the product.
pub open spec fn spec_beaver_share(d: int, e: int, a: int, b: int, c: int, king: bool) -> int {
    let base = fadd(fadd(fmul(d, b), fmul(e, a)), c);
    if king {
        fadd(fmul(d, e), base)
    } else {
        base
    }
}

/// Whether both operands of a batch element are Shared (and thus consume
/// a Beaver triple).
pub open spec fn both_shared(x: MpcScalar, y: MpcScalar) -> bool {
    x@.vis == Visibility::Shared && y@.vis == Visibility::Shared
}

/// The number of Shared×Shared pairs among the first i elements of a
/// batch: the index of element i's triple, and half the index of its
/// maskings in the batched broadcast.
pub open spec fn spec_shared_count(xs: Seq<MpcScalar>, ys: Seq<MpcScalar>, i: int) -> int
    decreases i,
{
    if i <= 0 {
        0
    } else {
        spec_shared_count(xs, ys, i - 1) + if both_shared(xs[i - 1], ys[i - 1]) {
            1int
        } else {
            0int
        }
    }
}

/// The shared count is monotone and bounded by the number of elements.
pub proof fn lemma_shared_count_bounds(xs: Seq<MpcScalar>, ys: Seq<MpcScalar>, i: int, j: int)
    requires
        0 <= i <= j,
    ensures
        0 <= spec_shared_count(xs, ys, i) <= spec_shared_count(xs, ys, j) <= spec_shared_count(
            xs,
            ys,
            i,
        ) + (j - i),
    decreases i + j,
{
    if i < j {
        lemma_shared_count_bounds(xs, ys, i, j - 1);
    } else if i > 0 {
        lemma_shared_count_bounds(xs, ys, i - 1, i - 1);
    }
}

/// The model of one element of a batch multiplication: a Beaver share
/// built from this element's triple and maskings when both operands are
/// Shared, a local product otherwise.
pub open spec fn spec_batch_mul_at(
    xs: Seq<MpcScalar>,
    ys: Seq<MpcScalar>,
    triples: Seq<(Scalar, Scalar, Scalar)>,
    peer: Seq<Scalar>,
    i: int,
) -> ShareView {
    let x = xs[i]@;
    let y = ys[i]@;
    let k = spec_shared_count(xs, ys, i);
    if both_shared(xs[i], ys[i]) {
        let a = scalar_val(triples[k].0);
        let b = scalar_val(triples[k].1);
        let c = scalar_val(triples[k].2);
        let d = fadd(fsub(x.val, a), scalar_val(peer[2 * k]));
        let e = fadd(fsub(y.val, b), scalar_val(peer[2 * k + 1]));
        ShareView {
            val: spec_beaver_share(d, e, a, b, c, x.party == 0),
            vis: Visibility::Shared,
            party: x.party,
        }
    } else {
        ShareView {
            val: fmul(x.val, y.val),
            vis: Visibility::spec_min(x.vis, y.vis),
            party: x.party,
        }
    }
}

/// The model of a whole batch multiplication.
pub open spec fn spec_batch_mul(
    xs: Seq<MpcScalar>,
    ys: Seq<MpcScalar>,
    triples: Seq<(Scalar, Scalar, Scalar)>,
    peer: Seq<Scalar>,
) -> Seq<ShareView> {
    Seq::new(xs.len(), |i: int| spec_batch_mul_at(xs, ys, triples, peer, i))
}

/// The whole local result of an addition: value, minimum visibility, and
/// the unchanged party.
pub open spec fn spec_add_view(a: ShareView, b: ShareView) -> ShareView {
    ShareView {
        val: spec_add_val(a, b),
        vis: Visibility::spec_min(a.vis, b.vis),
        party: a.party,
    }
}

/// The left fold of `add` over the first i views, from a Public zero.
pub open spec fn spec_sum_views(s: Seq<ShareView>, party: int, i: int) -> ShareView
    decreases i,
{
    if i <= 0 {
        ShareView { val: 0, vis: Visibility::Public, party }
    } else {
        spec_add_view(spec_sum_views(s, party, i - 1), s[i - 1])
    }
}

/// 256^k: the weight of the k-th little-endian byte.
pub open spec fn pow256(k: int) -> int
    decreases k,
{
    if k <= 0 {
        1
    } else {
        256 * pow256(k - 1)
    }
}

/// A little-endian byte string represents an integer in [0, 256^len).
pub proof fn lemma_bytes_le_val_bound(b: Seq<u8>)
    ensures
        0 <= bytes_le_val(b) < pow256(b.len() as int),
    decreases b.len(),
{
    if b.len() > 0 {
        lemma_bytes_le_val_bound(b.skip(1));
        assert(b.skip(1).len() == b.len() - 1);
    }
}

/// Splitting a byte string at position k splits its value with weight
/// 256^k.
pub proof fn lemma_bytes_le_val_split(b: Seq<u8>, k: int)
    requires
        0 <= k <= b.len(),
    ensures
        bytes_le_val(b) == bytes_le_val(b.take(k)) + pow256(k) * bytes_le_val(b.skip(k)),
    decreases k,
{
    if k == 0 {
        assert(b.take(0).len() == 0);
        assert(b.skip(0) =~= b);
    } else {
        lemma_bytes_le_val_split(b.skip(1), k - 1);
        assert(b.skip(1).take(k - 1) =~= b.take(k).skip(1));
        assert(b.skip(1).skip(k - 1) =~= b.skip(k));
        assert(b.take(k)[0] == b[0]);
        assert(bytes_le_val(b.take(k)) == b[0] + 256 * bytes_le_val(b.take(k).skip(1)));
        assert(pow256(k) == 256 * pow256(k - 1));
        assert(256 * (pow256(k - 1) * bytes_le_val(b.skip(k))) == pow256(k) * bytes_le_val(
            b.skip(k),
        )) by (nonlinear_arith)
            requires
                pow256(k) == 256 * pow256(k - 1),
        ;
    }
}

/// A field scalar allocated in the MPC network.
#[derive(Clone, Copy)]
pub struct MpcScalar {
    /// This party's share of the value (or the plain value itself when the
    /// visibility is Private or Public).
    value: Scalar,
    /// How much information the parties hold about the value.
    visibility: Visibility,
    /// This party's id: 0 (the king) or 1.
    party_id: u64,
}

impl View for MpcScalar {
    type V = ShareView;

    closed spec fn view(&self) -> ShareView {
        ShareView {
            val: scalar_val(self.value),
            vis: self.visibility,
            party: self.party_id as int,
        }
    }
}

impl MpcScalar {
    /// Well-formedness: the share is a canonical field element and the
    /// party id is one of the two parties'.
    pub open spec fn wf(self) -> bool {
        in_field(self@.val) && 0 <= self@.party < 2
    }

    /// Whether this party is the king, party 0.
    pub open spec fn is_king(self) -> bool {
        self@.party == 0
    }

    /// Create a scalar from a u64 with the given visibility.
    pub fn from_u64_with_visibility(a: u64, visibility: Visibility, party_id: u64) -> (r: Self)
        requires
            party_id < 2,
        ensures
            r.wf(),
            r@.val == a as int,
            r@.vis == visibility,
            r@.party == party_id as int,
    {
        let value = scalar_from_u64(a);
        Self { value, visibility, party_id }
    }

    /// Create a Public scalar from a u64; both parties hold the plaintext.
    pub fn from_public_u64(a: u64, party_id: u64) -> (r: Self)
        requires
            party_id < 2,
        ensures
            r.wf(),
            r@.val == a as int,
            r@.vis == Visibility::Public,
            r@.party == party_id as int,
    {
        Self::from_u64_with_visibility(a, Visibility::Public, party_id)
    }

    /// Create a Private scalar from a u64; only this party knows it.
    pub fn from_private_u64(a: u64, party_id: u64) -> (r: Self)
        requires
            party_id < 2,
        ensures
            r.wf(),
            r@.val == a as int,
            r@.vis == Visibility::Private,
            r@.party == party_id as int,
    {
        Self::from_u64_with_visibility(a, Visibility::Private, party_id)
    }

    /// Create a scalar from an existing field scalar with the given
    /// visibility.
    pub fn from_scalar_with_visibility(a: Scalar, visibility: Visibility, party_id: u64) -> (r:
        Self)
        requires
            party_id < 2,
        ensures
            r.wf(),
            r@.val == scalar_val(a),
            r@.vis == visibility,
            r@.party == party_id as int,
    {
        let value = scalar_reduced(a);
        Self { value, visibility, party_id }
    }

    /// Create a Public scalar from an existing field scalar.
    pub fn from_public_scalar(a: Scalar, party_id: u64) -> (r: Self)
        requires
            party_id < 2,
        ensures
            r.wf(),
            r@.val == scalar_val(a),
            r@.vis == Visibility::Public,
            r@.party == party_id as int,
    {
        Self::from_scalar_with_visibility(a, Visibility::Public, party_id)
    }

    /// Create a Private scalar from an existing field scalar.
    pub fn from_private_scalar(a: Scalar, party_id: u64) -> (r: Self)
        requires
            party_id < 2,
        ensures
            r.wf(),
            r@.val == scalar_val(a),
            r@.vis == Visibility::Private,
            r@.party == party_id as int,
    {
        Self::from_scalar_with_visibility(a, Visibility::Private, party_id)
    }

    /// The underlying field scalar: this party's share, or the plain value.
    pub fn value(&self) -> (r: Scalar)
        ensures
            scalar_val(r) == self@.val,
    {
        self.value
    }

    /// The underlying field scalar; alias of `value` kept for callers that
    /// convert back out of the wrapper.
    pub fn to_scalar(&self) -> (r: Scalar)
        ensures
            scalar_val(r) == self@.val,
    {
        self.value
    }

    pub fn visibility(&self) -> (r: Visibility)
        ensures
            r == self@.vis,
    {
        self.visibility
    }

    pub fn party_id(&self) -> (r: u64)
        ensures
            r as int == self@.party,
    {
        self.party_id
    }

    pub fn is_public(&self) -> (r: bool)
        ensures
            r == (self@.vis == Visibility::Public),
    {
        self.visibility.is_public()
    }

    pub fn is_shared(&self) -> (r: bool)
        ensures
            r == (self@.vis == Visibility::Shared),
    {
        self.visibility.is_shared()
    }

    pub fn is_private(&self) -> (r: bool)
        ensures
            r == (self@.vis == Visibility::Private),
    {
        self.visibility.is_private()
    }

    /// Equality of the underlying values, as the engine compares opened
    /// results: visibilities are not compared.
    pub fn eq(&self, other: &Self) -> (r: bool)
        ensures
            r == (self@.val == other@.val),
    {
        scalar_eq(&self.value, &other.value)
    }

    /// Negate the value; each party negates its share locally, for any
    /// visibility.
    pub fn neg(&self) -> (r: Self)
        requires
            self.wf(),
        ensures
            r.wf(),
            r@.val == fneg(self@.val),
            r@.vis == self@.vis,
            r@.party == self@.party,
    {
        proof {
            lemma_field_ops_in_field(0, self@.val);
        }
        Self {
            value: scalar_neg(&self.value),
            visibility: self.visibility,
            party_id: self.party_id,
        }
    }

    /// Add two values held by the same party.  When both are Public or
    /// both are Shared, each party adds locally; when exactly one is
    /// Public, only the king folds the public value into her share.  The
    /// result's visibility is the minimum of the operands'.
    pub fn add(&self, rhs: &Self) -> (r: Self)
        requires
            self.wf(),
            rhs.wf(),
            self@.party == rhs@.party,
        ensures
            r.wf(),
            r@.val == spec_add_val(self@, rhs@),
            r@.vis == Visibility::spec_min(self@.vis, rhs@.vis),
            r@.party == self@.party,
    {
        proof {
            lemma_field_ops_in_field(self@.val, rhs@.val);
        }
        let visibility = Visibility::min_visibility_two(self.visibility, rhs.visibility);
        let am_king = self.party_id == 0;
        if self.visibility.is_public() && rhs.visibility.is_shared() {
            let value = if am_king {
                scalar_add(&self.value, &rhs.value)
            } else {
                rhs.value
            };
            Self { value, visibility, party_id: self.party_id }
        } else {
            let both_public = self.visibility.is_public() && rhs.visibility.is_public();
            let both_shared = self.visibility.is_shared() && rhs.visibility.is_shared();
            let value = if both_public || both_shared || am_king {
                scalar_add(&self.value, &rhs.value)
            } else {
                self.value
            };
            Self { value, visibility, party_id: self.party_id }
        }
    }

    /// Subtract: addition of the negated rhs.
    pub fn sub(&self, rhs: &Self) -> (r: Self)
        requires
            self.wf(),
            rhs.wf(),
            self@.party == rhs@.party,
        ensures
            r.wf(),
            r@.val == spec_sub_val(self@, rhs@),
            r@.vis == Visibility::spec_min(self@.vis, rhs@.vis),
            r@.party == self@.party,
    {
        self.add(&rhs.neg())
    }

    /// Multiply when at least one operand is Public: both parties multiply
    /// locally by the public factor, which maps an additive sharing of v
    /// to an additive sharing of p·v.  A Shared×Shared product needs a
    /// Beaver triple and is `mul`; a Private operand is rejected rather
    /// than silently mixed with shares.
    pub fn mul_public(&self, rhs: &Self) -> (r: Result<Self, MpcError>)
        requires
            self.wf(),
            rhs.wf(),
            self@.party == rhs@.party,
        ensures
            r is Ok <==> (self@.vis == Visibility::Public || rhs@.vis == Visibility::Public),
            r is Err ==> r->Err_0 == MpcError::VisibilityError,
            r is Ok ==> ({
                let o = r->Ok_0;
                o.wf() && o@.val == fmul(self@.val, rhs@.val) && o@.vis == Visibility::spec_min(
                    self@.vis,
                    rhs@.vis,
                ) && o@.party == self@.party
            }),
    {
        if !(self.visibility.is_public() || rhs.visibility.is_public()) {
            return Err(MpcError::VisibilityError);
        }
        proof {
            lemma_field_ops_in_field(self@.val, rhs@.val);
        }
        let visibility = Visibility::min_visibility_two(self.visibility, rhs.visibility);
        Ok(
            Self {
                value: scalar_mul(&self.value, &rhs.value),
                visibility,
                party_id: self.party_id,
            },
        )
    }

    /// This party's maskings (d, e) = (x - a, y - b) of a Shared×Shared
    /// multiplication: the message each party broadcasts so that both can
    /// open d and e.
    pub fn beaver_masked(&self, rhs: &Self, a: &Scalar, b: &Scalar) -> (r: (Scalar, Scalar))
        requires
            self.wf(),
            rhs.wf(),
        ensures
            scalar_val(r.0) == fsub(self@.val, scalar_val(*a)),
            scalar_val(r.1) == fsub(rhs@.val, scalar_val(*b)),
    {
        (scalar_sub(&self.value, a), scalar_sub(&rhs.value, b))
    }

    /// Multiply two Shared values with the Beaver trick, consuming one
    /// triple (a, b, c) of shares with joint c = a·b.  Each party has
    /// broadcast its maskings (`beaver_masked`) and passes in the peer's;
    /// the opened d = x - a and e = y - b are public, and the result share
    /// is d·e (king only) + d·b + e·a + c.
    pub fn mul(&self, rhs: &Self, triple: &(Scalar, Scalar, Scalar), peer_d: &Scalar, peer_e:
        &Scalar) -> (r: Result<Self, MpcError>)
        requires
            self.wf(),
            rhs.wf(),
            self@.party == rhs@.party,
        ensures
            r is Ok <==> (self@.vis == Visibility::Shared && rhs@.vis == Visibility::Shared),
            r is Err ==> r->Err_0 == MpcError::VisibilityError,
            r is Ok ==> ({
                let o = r->Ok_0;
                let d = fadd(fsub(self@.val, scalar_val(triple.0)), scalar_val(*peer_d));
                let e = fadd(fsub(rhs@.val, scalar_val(triple.1)), scalar_val(*peer_e));
                o.wf() && o@.val == spec_beaver_share(
                    d,
                    e,
                    scalar_val(triple.0),
                    scalar_val(triple.1),
                    scalar_val(triple.2),
                    self@.party == 0,
                ) && o@.vis == Visibility::Shared && o@.party == self@.party
            }),
    {
        if !(self.visibility.is_shared() && rhs.visibility.is_shared()) {
            return Err(MpcError::VisibilityError);
        }
        let (my_d, my_e) = self.beaver_masked(rhs, &triple.0, &triple.1);
        let d = scalar_add(&my_d, peer_d);
        let e = scalar_add(&my_e, peer_e);
        let db = scalar_mul(&d, &triple.1);
        let ea = scalar_mul(&e, &triple.0);
        let base = scalar_add(&scalar_add(&db, &ea), &triple.2);
        let value = if self.party_id == 0 {
            scalar_add(&scalar_mul(&d, &e), &base)
        } else {
            base
        };
        Ok(Self { value, visibility: Visibility::Shared, party_id: self.party_id })
    }

    /// Share a Private value: sample a uniform blinder r, keep v - r as
    /// this party's share, and return r as the message for the peer, who
    /// holds it as its share.  Called by the owning party; the peer calls
    /// `receive_value` on the message.
    pub fn share_secret(&self) -> (r: Result<(Self, Scalar), MpcError>)
        requires
            self.wf(),
        ensures
            r is Ok <==> self@.vis == Visibility::Private,
            r is Err ==> r->Err_0 == MpcError::VisibilityError,
            r is Ok ==> ({
                let (s, m) = r->Ok_0;
                s.wf() && in_field(scalar_val(m)) && s@.val == fsub(self@.val, scalar_val(m))
                    && s@.vis == Visibility::Shared && s@.party == self@.party
            }),
    {
        if !self.visibility.is_private() {
            return Err(MpcError::VisibilityError);
        }
        let blinder = scalar_random();
        proof {
            lemma_field_ops_in_field(self@.val, scalar_val(blinder));
        }
        let share = scalar_sub(&self.value, &blinder);
        Ok(
            (
                Self { value: share, visibility: Visibility::Shared, party_id: self.party_id },
                blinder,
            ),
        )
    }

    /// Receive this party's share of a value the peer is sharing; the
    /// counterpart of the peer's `share_secret`.
    pub fn receive_value(share: Scalar, party_id: u64) -> (r: Self)
        requires
            party_id < 2,
        ensures
            r.wf(),
            r@.val == scalar_val(share),
            r@.vis == Visibility::Shared,
            r@.party == party_id as int,
    {
        let value = scalar_reduced(share);
        Self { value, visibility: Visibility::Shared, party_id }
    }

    /// The authenticated reveal of a Shared value.  Each party commits to
    /// its share (`RistrettoCommitment::commit`), the commitment points
    /// are exchanged, then the openings (blinding, value); this function
    /// verifies the peer's opening against its earlier commitment and, on
    /// success, returns the sum of the shares as Public.  A mismatched
    /// opening is an authentication failure; committing a value that is
    /// not Shared is a visibility error.
    pub fn commit_and_open(
        &self,
        peer_commitment: &RistrettoPoint,
        peer_blinding: &Scalar,
        peer_value: &Scalar,
    ) -> (r: Result<Self, MpcError>)
        requires
            self.wf(),
        ensures
            r is Ok <==> (self@.vis == Visibility::Shared && point_val(*peer_commitment)
                == spec_pedersen(scalar_val(*peer_value), scalar_val(*peer_blinding))),
            self@.vis != Visibility::Shared ==> r == Result::<Self, MpcError>::Err(
                MpcError::VisibilityError,
            ),
            r is Err && self@.vis == Visibility::Shared ==> r == Result::<Self, MpcError>::Err(
                MpcError::AuthenticationError,
            ),
            r is Ok ==> ({
                let o = r->Ok_0;
                o.wf() && o@.val == fadd(self@.val, scalar_val(*peer_value)) && o@.vis
                    == Visibility::Public && o@.party == self@.party
            }),
    {
        if !self.visibility.is_shared() {
            return Err(MpcError::VisibilityError);
        }
        if !RistrettoCommitment::verify_from_values(peer_commitment, peer_blinding, peer_value) {
            return Err(MpcError::AuthenticationError);
        }
        proof {
            lemma_field_ops_in_field(self@.val, scalar_val(*peer_value));
        }
        Ok(
            Self {
                value: scalar_add(&self.value, peer_value),
                visibility: Visibility::Public,
                party_id: self.party_id,
            },
        )
    }

    /// Open a value: on a Public value, a clone (no exchange happens and
    /// `peer_share` is ignored); on a Shared value, both parties broadcast
    /// their share (`value()`) and the result is the sum of this party's
    /// share and the peer's.  Opening a Private value is a visibility
    /// error.
    pub fn open(&self, peer_share: &Scalar) -> (r: Result<Self, MpcError>)
        requires
            self.wf(),
        ensures
            r is Err <==> self@.vis == Visibility::Private,
            r is Err ==> r->Err_0 == MpcError::VisibilityError,
            self@.vis == Visibility::Public ==> r is Ok && r->Ok_0@ == self@ && r->Ok_0.wf(),
            self@.vis == Visibility::Shared ==> r is Ok && ({
                let o = r->Ok_0;
                o.wf() && o@.val == fadd(self@.val, scalar_val(*peer_share)) && o@.vis
                    == Visibility::Public && o@.party == self@.party
            }),
    {
        if self.visibility.is_private() {
            return Err(MpcError::VisibilityError);
        }
        if self.visibility.is_public() {
            return Ok(*self);
        }
        proof {
            lemma_field_ops_in_field(self@.val, scalar_val(*peer_share));
        }
        Ok(
            Self {
                value: scalar_add(&self.value, peer_share),
                visibility: Visibility::Public,
                party_id: self.party_id,
            },
        )
    }
    /// Share a batch of Private values: the owner keeps v - r for each and
    /// one message carries the whole vector of blinders, so the round
    /// count is independent of the batch size.
    pub fn batch_share_secrets(values: &Vec<MpcScalar>) -> (r: Result<
        (Vec<MpcScalar>, Vec<Scalar>),
        MpcError,
    >)
        requires
            forall|i: int| 0 <= i < values@.len() ==> (#[trigger] values@[i]).wf(),
        ensures
            r is Ok <==> (forall|i: int|
                0 <= i < values@.len() ==> (#[trigger] values@[i])@.vis == Visibility::Private),
            r is Err ==> r->Err_0 == MpcError::VisibilityError,
            r is Ok ==> ({
                let (shares, msgs) = r->Ok_0;
                &&& shares@.len() == values@.len()
                &&& msgs@.len() == values@.len()
                &&& forall|i: int|
                    0 <= i < values@.len() ==> {
                        let s = #[trigger] shares@[i];
                        &&& s.wf()
                        &&& s@.vis == Visibility::Shared
                        &&& s@.party == values@[i]@.party
                        &&& in_field(scalar_val(msgs@[i]))
                        &&& s@.val == fsub(values@[i]@.val, scalar_val(msgs@[i]))
                    }
            }),
    {
        let n = values.len();
        let mut i: usize = 0;
        while i < n
            invariant
                n == values@.len(),
                i <= n,
                forall|j: int| 0 <= j < values@.len() ==> (#[trigger] values@[j]).wf(),
                forall|j: int|
                    0 <= j < i ==> (#[trigger] values@[j])@.vis == Visibility::Private,
            decreases n - i,
        {
            if !values[i].is_private() {
                return Err(MpcError::VisibilityError);
            }
            i = i + 1;
        }
        let mut shares: Vec<MpcScalar> = Vec::new();
        let mut msgs: Vec<Scalar> = Vec::new();
        let mut i: usize = 0;
        while i < n
            invariant
                n == values@.len(),
                i <= n,
                shares@.len() == i,
                msgs@.len() == i,
                forall|j: int| 0 <= j < values@.len() ==> (#[trigger] values@[j]).wf(),
                forall|j: int|
                    0 <= j < values@.len() ==> (#[trigger] values@[j])@.vis
                        == Visibility::Private,
                forall|j: int|
                    0 <= j < i ==> {
                        let s = #[trigger] shares@[j];
                        &&& s.wf()
                        &&& s@.vis == Visibility::Shared
                        &&& s@.party == values@[j]@.party
                        &&& in_field(scalar_val(msgs@[j]))
                        &&& s@.val == fsub(values@[j]@.val, scalar_val(msgs@[j]))
                    },
            decreases n - i,
        {
            let (s, m) = match values[i].share_secret() {
                Ok(p) => p,
                Err(_) => unreached(),
            };
            shares.push(s);
            msgs.push(m);
            i = i + 1;
        }
        Ok((shares, msgs))
    }

    /// Receive this party's shares of a batch the peer is sharing.
    pub fn batch_receive_values(msgs: &Vec<Scalar>, party_id: u64) -> (r: Vec<MpcScalar>)
        requires
            party_id < 2,
        ensures
            r@.len() == msgs@.len(),
            forall|i: int|
                0 <= i < msgs@.len() ==> {
                    let s = #[trigger] r@[i];
                    &&& s.wf()
                    &&& s@.vis == Visibility::Shared
                    &&& s@.party == party_id as int
                    &&& s@.val == scalar_val(msgs@[i])
                },
    {
        let n = msgs.len();
        let mut out: Vec<MpcScalar> = Vec::new();
        let mut i: usize = 0;
        while i < n
            invariant
                n == msgs@.len(),
                i <= n,
                out@.len() == i,
                party_id < 2,
                forall|j: int|
                    0 <= j < i ==> {
                        let s = #[trigger] out@[j];
                        &&& s.wf()
                        &&& s@.vis == Visibility::Shared
                        &&& s@.party == party_id as int
                        &&& s@.val == scalar_val(msgs@[j])
                    },
            decreases n - i,
        {
            out.push(Self::receive_value(msgs[i], party_id));
            i = i + 1;
        }
        out
    }

    /// The vector of shares this party broadcasts to open a batch: one
    /// message regardless of the batch size.
    pub fn batch_open_message(values: &Vec<MpcScalar>) -> (r: Vec<Scalar>)
        ensures
            r@.len() == values@.len(),
            forall|i: int|
                0 <= i < values@.len() ==> scalar_val(#[trigger] r@[i]) == values@[i]@.val,
    {
        let n = values.len();
        let mut out: Vec<Scalar> = Vec::new();
        let mut i: usize = 0;
        while i < n
            invariant
                n == values@.len(),
                i <= n,
                out@.len() == i,
                forall|j: int|
                    0 <= j < i ==> scalar_val(#[trigger] out@[j]) == values@[j]@.val,
            decreases n - i,
        {
            out.push(values[i].value());
            i = i + 1;
        }
        out
    }

    /// Open a batch of Shared values against the peer's broadcast shares.
    pub fn batch_open(values: &Vec<MpcScalar>, peer_shares: &Vec<Scalar>) -> (r: Result<
        Vec<MpcScalar>,
        MpcError,
    >)
        requires
            forall|i: int| 0 <= i < values@.len() ==> (#[trigger] values@[i]).wf(),
            peer_shares@.len() == values@.len(),
        ensures
            r is Ok <==> (forall|i: int|
                0 <= i < values@.len() ==> (#[trigger] values@[i])@.vis == Visibility::Shared),
            r is Err ==> r->Err_0 == MpcError::VisibilityError,
            r is Ok ==> ({
                let opened = r->Ok_0;
                &&& opened@.len() == values@.len()
                &&& forall|i: int|
                    0 <= i < values@.len() ==> {
                        let o = #[trigger] opened@[i];
                        &&& o.wf()
                        &&& o@.vis == Visibility::Public
                        &&& o@.party == values@[i]@.party
                        &&& o@.val == fadd(values@[i]@.val, scalar_val(peer_shares@[i]))
                    }
            }),
    {
        let n = values.len();
        let mut i: usize = 0;
        while i < n
            invariant
                n == values@.len(),
                i <= n,
                forall|j: int| 0 <= j < values@.len() ==> (#[trigger] values@[j]).wf(),
                forall|j: int|
                    0 <= j < i ==> (#[trigger] values@[j])@.vis == Visibility::Shared,
            decreases n - i,
        {
            if !values[i].is_shared() {
                return Err(MpcError::VisibilityError);
            }
            i = i + 1;
        }
        let mut out: Vec<MpcScalar> = Vec::new();
        let mut i: usize = 0;
        while i < n
            invariant
                n == values@.len(),
                peer_shares@.len() == values@.len(),
                i <= n,
                out@.len() == i,
                forall|j: int| 0 <= j < values@.len() ==> (#[trigger] values@[j]).wf(),
                forall|j: int|
                    0 <= j < values@.len() ==> (#[trigger] values@[j])@.vis == Visibility::Shared,
                forall|j: int|
                    0 <= j < i ==> {
                        let o = #[trigger] out@[j];
                        &&& o.wf()
                        &&& o@.vis == Visibility::Public
                        &&& o@.party == values@[j]@.party
                        &&& o@.val == fadd(values@[j]@.val, scalar_val(peer_shares@[j]))
                    },
            decreases n - i,
        {
            let o = match values[i].open(&peer_shares[i]) {
                Ok(v) => v,
                Err(_) => unreached(),
            };
            out.push(o);
            i = i + 1;
        }
        Ok(out)
    }

    /// The number of Beaver triples a batch multiplication of these
    /// operands will consume: one per Shared×Shared pair.
    pub fn count_shared_pairs(xs: &Vec<MpcScalar>, ys: &Vec<MpcScalar>) -> (r: usize)
        requires
            xs@.len() == ys@.len(),
        ensures
            r == spec_shared_count(xs@, ys@, xs@.len() as int),
    {
        let n = xs.len();
        let mut count: usize = 0;
        let mut i: usize = 0;
        while i < n
            invariant
                n == xs@.len(),
                ys@.len() == n,
                i <= n,
                count == spec_shared_count(xs@, ys@, i as int),
                count <= i,
            decreases n - i,
        {
            if xs[i].is_shared() && ys[i].is_shared() {
                count = count + 1;
            }
            i = i + 1;
        }
        count
    }

    /// This party's batched maskings for a batch multiplication: for the
    /// k-th Shared×Shared pair, positions 2k and 2k + 1 carry d = x - a
    /// and e = y - b.  The whole vector crosses in a single broadcast, so
    /// the batch takes two rounds regardless of its size.
    pub fn batch_mul_message(
        xs: &Vec<MpcScalar>,
        ys: &Vec<MpcScalar>,
        triples: &Vec<(Scalar, Scalar, Scalar)>,
    ) -> (r: Vec<Scalar>)
        requires
            xs@.len() == ys@.len(),
            forall|i: int| 0 <= i < xs@.len() ==> (#[trigger] xs@[i]).wf(),
            forall|i: int| 0 <= i < ys@.len() ==> (#[trigger] ys@[i]).wf(),
            triples@.len() == spec_shared_count(xs@, ys@, xs@.len() as int),
        ensures
            r@.len() == 2 * spec_shared_count(xs@, ys@, xs@.len() as int),
            forall|i: int|
                0 <= i < xs@.len() && #[trigger] both_shared(xs@[i], ys@[i]) ==> {
                    let k = spec_shared_count(xs@, ys@, i);
                    &&& scalar_val(r@[2 * k]) == fsub(xs@[i]@.val, scalar_val(triples@[k].0))
                    &&& scalar_val(r@[2 * k + 1]) == fsub(ys@[i]@.val, scalar_val(triples@[k].1))
                },
    {
        let n = xs.len();
        let mut out: Vec<Scalar> = Vec::new();
        let mut k: usize = 0;
        let mut i: usize = 0;
        while i < n
            invariant
                n == xs@.len(),
                ys@.len() == n,
                i <= n,
                forall|j: int| 0 <= j < xs@.len() ==> (#[trigger] xs@[j]).wf(),
                forall|j: int| 0 <= j < ys@.len() ==> (#[trigger] ys@[j]).wf(),
                triples@.len() == spec_shared_count(xs@, ys@, n as int),
                k == spec_shared_count(xs@, ys@, i as int),
                out@.len() == 2 * k,
                forall|j: int|
                    0 <= j < i && #[trigger] both_shared(xs@[j], ys@[j]) ==> {
                        let kk = spec_shared_count(xs@, ys@, j);
                        &&& scalar_val(out@[2 * kk]) == fsub(
                            xs@[j]@.val,
                            scalar_val(triples@[kk].0),
                        )
                        &&& scalar_val(out@[2 * kk + 1]) == fsub(
                            ys@[j]@.val,
                            scalar_val(triples@[kk].1),
                        )
                    },
            decreases n - i,
        {
            if xs[i].is_shared() && ys[i].is_shared() {
                proof {
                    lemma_shared_count_bounds(xs@, ys@, i as int + 1, n as int);
                    lemma_shared_count_bounds(xs@, ys@, 0, i as int);
                }
                let ghost prev_out = out@;
                let t = &triples[k];
                let (d, e) = xs[i].beaver_masked(&ys[i], &t.0, &t.1);
                out.push(d);
                out.push(e);
                proof {
                    assert forall|j: int|
                        0 <= j < i + 1 && #[trigger] both_shared(xs@[j], ys@[j]) implies {
                        let kk = spec_shared_count(xs@, ys@, j);
                        &&& scalar_val(out@[2 * kk]) == fsub(
                            xs@[j]@.val,
                            scalar_val(triples@[kk].0),
                        )
                        &&& scalar_val(out@[2 * kk + 1]) == fsub(
                            ys@[j]@.val,
                            scalar_val(triples@[kk].1),
                        )
                    } by {
                        let kk = spec_shared_count(xs@, ys@, j);
                        if j < i {
                            lemma_shared_count_bounds(xs@, ys@, 0, j);
                            lemma_shared_count_bounds(xs@, ys@, j + 1, i as int);
                            assert(spec_shared_count(xs@, ys@, j + 1) == kk + 1);
                            assert(2 * kk + 1 < prev_out.len());
                            assert(out@ == prev_out.push(d).push(e));
                            vstd::seq::lemma_seq_push_index_different_alt(prev_out, d, 2 * kk);
                            vstd::seq::lemma_seq_push_index_different_alt(
                                prev_out.push(d),
                                e,
                                2 * kk,
                            );
                            vstd::seq::lemma_seq_push_index_different_alt(prev_out, d, 2 * kk + 1);
                            vstd::seq::lemma_seq_push_index_different_alt(
                                prev_out.push(d),
                                e,
                                2 * kk + 1,
                            );
                        } else {
                            assert(kk == k as int);
                            assert(out@[2 * kk] == d);
                            assert(out@[2 * kk + 1] == e);
                        }
                    }
                }
                k = k + 1;
            }
            i = i + 1;
        }
        out
    }

    /// Multiply two batches elementwise, consuming one Beaver triple per
    /// Shared×Shared pair.  Both parties have broadcast their batched
    /// maskings (`batch_mul_message`); `peer` is the peer's.  The whole
    /// batch takes two rounds; every other pair is multiplied locally.  A
    /// Private operand anywhere is a visibility error.
    pub fn batch_mul(
        xs: &Vec<MpcScalar>,
        ys: &Vec<MpcScalar>,
        triples: &Vec<(Scalar, Scalar, Scalar)>,
        peer: &Vec<Scalar>,
    ) -> (r: Result<Vec<MpcScalar>, MpcError>)
        requires
            xs@.len() == ys@.len(),
            forall|i: int| 0 <= i < xs@.len() ==> (#[trigger] xs@[i]).wf(),
            forall|i: int| 0 <= i < ys@.len() ==> (#[trigger] ys@[i]).wf(),
            forall|i: int|
                0 <= i < xs@.len() ==> (#[trigger] xs@[i])@.party == ys@[i]@.party,
            triples@.len() == spec_shared_count(xs@, ys@, xs@.len() as int),
            peer@.len() == 2 * spec_shared_count(xs@, ys@, xs@.len() as int),
        ensures
            r is Ok <==> (forall|i: int|
                0 <= i < xs@.len() ==> (#[trigger] xs@[i])@.vis != Visibility::Private
                    && ys@[i]@.vis != Visibility::Private),
            r is Err ==> r->Err_0 == MpcError::VisibilityError,
            r is Ok ==> ({
                let out = r->Ok_0;
                &&& out@.len() == xs@.len()
                &&& forall|i: int|
                    0 <= i < xs@.len() ==> (#[trigger] out@[i]).wf() && out@[i]@
                        == spec_batch_mul(xs@, ys@, triples@, peer@)[i]
            }),
    {
        let n = xs.len();
        let peer_len = peer.len();
        let mut i: usize = 0;
        while i < n
            invariant
                n == xs@.len(),
                ys@.len() == n,
                i <= n,
                forall|j: int|
                    0 <= j < i ==> (#[trigger] xs@[j])@.vis != Visibility::Private && ys@[j]@.vis
                        != Visibility::Private,
            decreases n - i,
        {
            if xs[i].is_private() || ys[i].is_private() {
                return Err(MpcError::VisibilityError);
            }
            i = i + 1;
        }
        let mut out: Vec<MpcScalar> = Vec::new();
        let mut k: usize = 0;
        let mut i: usize = 0;
        while i < n
            invariant
                n == xs@.len(),
                ys@.len() == n,
                i <= n,
                forall|j: int| 0 <= j < xs@.len() ==> (#[trigger] xs@[j]).wf(),
                forall|j: int| 0 <= j < ys@.len() ==> (#[trigger] ys@[j]).wf(),
                forall|j: int|
                    0 <= j < xs@.len() ==> (#[trigger] xs@[j])@.party == ys@[j]@.party,
                forall|j: int|
                    0 <= j < n ==> (#[trigger] xs@[j])@.vis != Visibility::Private && ys@[j]@.vis
                        != Visibility::Private,
                triples@.len() == spec_shared_count(xs@, ys@, n as int),
                peer@.len() == 2 * spec_shared_count(xs@, ys@, n as int),
                peer@.len() == peer_len,
                k == spec_shared_count(xs@, ys@, i as int),
                out@.len() == i,
                forall|j: int|
                    0 <= j < i ==> (#[trigger] out@[j]).wf() && out@[j]@ == spec_batch_mul(
                        xs@,
                        ys@,
                        triples@,
                        peer@,
                    )[j],
            decreases n - i,
        {
            let o = if xs[i].is_shared() && ys[i].is_shared() {
                proof {
                    lemma_shared_count_bounds(xs@, ys@, i as int + 1, n as int);
                    lemma_shared_count_bounds(xs@, ys@, 0, i as int);
                    assert(spec_shared_count(xs@, ys@, i as int + 1) == k + 1);
                }
                match xs[i].mul(&ys[i], &triples[k], &peer[2 * k], &peer[2 * k + 1]) {
                    Ok(v) => {
                        k = k + 1;
                        v
                    },
                    Err(_) => unreached(),
                }
            } else {
                match xs[i].mul_public(&ys[i]) {
                    Ok(v) => v,
                    Err(_) => unreached(),
                }
            };
            out.push(o);
            i = i + 1;
        }
        Ok(out)
    }

    /// Sum a sequence of values held by this party: a left fold of `add`
    /// from a Public zero; fully local, no round trips.
    pub fn sum(values: &Vec<MpcScalar>, party_id: u64) -> (r: Self)
        requires
            party_id < 2,
            forall|i: int|
                0 <= i < values@.len() ==> (#[trigger] values@[i]).wf() && values@[i]@.party
                    == party_id as int,
        ensures
            r.wf(),
            r@ == spec_sum_views(
                values@.map_values(|v: MpcScalar| v@),
                party_id as int,
                values@.len() as int,
            ),
    {
        let ghost views = values@.map_values(|v: MpcScalar| v@);
        let n = values.len();
        let mut acc = Self::from_public_u64(0, party_id);
        let mut i: usize = 0;
        while i < n
            invariant
                n == values@.len(),
                i <= n,
                party_id < 2,
                forall|j: int|
                    0 <= j < values@.len() ==> (#[trigger] values@[j]).wf() && values@[j]@.party
                        == party_id as int,
                views == values@.map_values(|v: MpcScalar| v@),
                acc.wf(),
                acc@.party == party_id as int,
                acc@ == spec_sum_views(views, party_id as int, i as int),
            decreases n - i,
        {
            acc = acc.add(&values[i]);
            i = i + 1;
        }
        acc
    }

    /// The linear combination Σ vᵢ·cᵢ: an elementwise batch multiplication
    /// (two rounds, whatever the length) followed by a local summation.
    pub fn linear_combination(
        vs: &Vec<MpcScalar>,
        cs: &Vec<MpcScalar>,
        party_id: u64,
        triples: &Vec<(Scalar, Scalar, Scalar)>,
        peer: &Vec<Scalar>,
    ) -> (r: Result<Self, MpcError>)
        requires
            party_id < 2,
            vs@.len() == cs@.len(),
            forall|i: int|
                0 <= i < vs@.len() ==> (#[trigger] vs@[i]).wf() && vs@[i]@.party
                    == party_id as int,
            forall|i: int|
                0 <= i < cs@.len() ==> (#[trigger] cs@[i]).wf() && cs@[i]@.party
                    == party_id as int,
            triples@.len() == spec_shared_count(vs@, cs@, vs@.len() as int),
            peer@.len() == 2 * spec_shared_count(vs@, cs@, vs@.len() as int),
        ensures
            r is Ok <==> (forall|i: int|
                0 <= i < vs@.len() ==> (#[trigger] vs@[i])@.vis != Visibility::Private
                    && cs@[i]@.vis != Visibility::Private),
            r is Err ==> r->Err_0 == MpcError::VisibilityError,
            r is Ok ==> ({
                let o = r->Ok_0;
                o.wf() && o@ == spec_sum_views(
                    spec_batch_mul(vs@, cs@, triples@, peer@),
                    party_id as int,
                    vs@.len() as int,
                )
            }),
    {
        let products = match Self::batch_mul(vs, cs, triples, peer) {
            Ok(p) => p,
            Err(e) => {
                return Err(e);
            },
        };
        proof {
            assert(products@.map_values(|v: MpcScalar| v@) =~= spec_batch_mul(
                vs@,
                cs@,
                triples@,
                peer@,
            ));
        }
        Ok(Self::sum(&products, party_id))
    }

    /// Commit-and-open a batch of Shared values: the commitment points
    /// cross in one message, the openings in one more, and every peer
    /// opening is verified against its commitment.
    pub fn batch_commit_and_open(
        values: &Vec<MpcScalar>,
        peer_commitments: &Vec<RistrettoPoint>,
        peer_blindings: &Vec<Scalar>,
        peer_values: &Vec<Scalar>,
    ) -> (r: Result<Vec<MpcScalar>, MpcError>)
        requires
            forall|i: int| 0 <= i < values@.len() ==> (#[trigger] values@[i]).wf(),
            peer_commitments@.len() == values@.len(),
            peer_blindings@.len() == values@.len(),
            peer_values@.len() == values@.len(),
        ensures
            r is Ok <==> ((forall|i: int|
                0 <= i < values@.len() ==> (#[trigger] values@[i])@.vis == Visibility::Shared)
                && (forall|i: int|
                0 <= i < values@.len() ==> point_val(#[trigger] peer_commitments@[i])
                    == spec_pedersen(
                    scalar_val(peer_values@[i]),
                    scalar_val(peer_blindings@[i]),
                ))),
            r is Err ==> (r->Err_0 == MpcError::VisibilityError || r->Err_0
                == MpcError::AuthenticationError),
            r == Result::<Vec<MpcScalar>, MpcError>::Err(MpcError::VisibilityError) ==> exists|i: int|
                0 <= i < values@.len() && (#[trigger] values@[i])@.vis != Visibility::Shared,
            r == Result::<Vec<MpcScalar>, MpcError>::Err(MpcError::AuthenticationError)
                ==> exists|i: int|
                0 <= i < values@.len() && point_val(#[trigger] peer_commitments@[i])
                    != spec_pedersen(scalar_val(peer_values@[i]), scalar_val(peer_blindings@[i])),
            r is Ok ==> ({
                let opened = r->Ok_0;
                &&& opened@.len() == values@.len()
                &&& forall|i: int|
                    0 <= i < values@.len() ==> {
                        let o = #[trigger] opened@[i];
                        &&& o.wf()
                        &&& o@.vis == Visibility::Public
                        &&& o@.party == values@[i]@.party
                        &&& o@.val == fadd(values@[i]@.val, scalar_val(peer_values@[i]))
                    }
            }),
    {
        let n = values.len();
        let mut out: Vec<MpcScalar> = Vec::new();
        let mut i: usize = 0;
        while i < n
            invariant
                n == values@.len(),
                peer_commitments@.len() == values@.len(),
                peer_blindings@.len() == values@.len(),
                peer_values@.len() == values@.len(),
                i <= n,
                out@.len() == i,
                forall|j: int| 0 <= j < values@.len() ==> (#[trigger] values@[j]).wf(),
                forall|j: int|
                    0 <= j < i ==> (#[trigger] values@[j])@.vis == Visibility::Shared,
                forall|j: int|
                    0 <= j < i ==> point_val(#[trigger] peer_commitments@[j]) == spec_pedersen(
                        scalar_val(peer_values@[j]),
                        scalar_val(peer_blindings@[j]),
                    ),
                forall|j: int|
                    0 <= j < i ==> {
                        let o = #[trigger] out@[j];
                        &&& o.wf()
                        &&& o@.vis == Visibility::Public
                        &&& o@.party == values@[j]@.party
                        &&& o@.val == fadd(values@[j]@.val, scalar_val(peer_values@[j]))
                    },
            decreases n - i,
        {
            let o = match values[i].commit_and_open(
                &peer_commitments[i],
                &peer_blindings[i],
                &peer_values[i],
            ) {
                Ok(v) => v,
                Err(e) => {
                    return Err(e);
                },
            };
            out.push(o);
            i = i + 1;
        }
        Ok(out)
    }
}


/// Read a scalar back as a u64, from the low eight bytes of its canonical
/// little-endian encoding; exact whenever the represented integer fits.
pub fn scalar_to_u64(a: &Scalar) -> (r: u64)
    ensures
        scalar_val(*a) < 0x10000000000000000 ==> r as int == scalar_val(*a),
{
    let bytes = scalar_to_bytes(a);
    let acc7: u64 = bytes[7] as u64;
    let acc6: u64 = bytes[6] as u64 + 256 * acc7;
    let acc5: u64 = bytes[5] as u64 + 256 * acc6;
    let acc4: u64 = bytes[4] as u64 + 256 * acc5;
    let acc3: u64 = bytes[3] as u64 + 256 * acc4;
    let acc2: u64 = bytes[2] as u64 + 256 * acc3;
    let acc1: u64 = bytes[1] as u64 + 256 * acc2;
    let acc0: u64 = bytes[0] as u64 + 256 * acc1;
    proof {
        assert(bytes@.subrange(8, 8).len() == 0);
        assert(bytes@.subrange(7, 8).skip(1) =~= bytes@.subrange(8, 8));
        assert(bytes@.subrange(6, 8).skip(1) =~= bytes@.subrange(7, 8));
        assert(bytes@.subrange(5, 8).skip(1) =~= bytes@.subrange(6, 8));
        assert(bytes@.subrange(4, 8).skip(1) =~= bytes@.subrange(5, 8));
        assert(bytes@.subrange(3, 8).skip(1) =~= bytes@.subrange(4, 8));
        assert(bytes@.subrange(2, 8).skip(1) =~= bytes@.subrange(3, 8));
        assert(bytes@.subrange(1, 8).skip(1) =~= bytes@.subrange(2, 8));
        assert(bytes@.subrange(0, 8).skip(1) =~= bytes@.subrange(1, 8));
        assert(bytes_le_val(bytes@.subrange(8, 8)) == 0);
        assert(bytes@.subrange(7, 8)[0] == bytes@[7]);
        assert(bytes@.subrange(6, 8)[0] == bytes@[6]);
        assert(bytes@.subrange(5, 8)[0] == bytes@[5]);
        assert(bytes@.subrange(4, 8)[0] == bytes@[4]);
        assert(bytes@.subrange(3, 8)[0] == bytes@[3]);
        assert(bytes@.subrange(2, 8)[0] == bytes@[2]);
        assert(bytes@.subrange(1, 8)[0] == bytes@[1]);
        assert(bytes@.subrange(0, 8)[0] == bytes@[0]);
        assert(acc7 as int == bytes_le_val(bytes@.subrange(7, 8)));
        assert(acc6 as int == bytes_le_val(bytes@.subrange(6, 8)));
        assert(acc5 as int == bytes_le_val(bytes@.subrange(5, 8)));
        assert(acc4 as int == bytes_le_val(bytes@.subrange(4, 8)));
        assert(acc3 as int == bytes_le_val(bytes@.subrange(3, 8)));
        assert(acc2 as int == bytes_le_val(bytes@.subrange(2, 8)));
        assert(acc1 as int == bytes_le_val(bytes@.subrange(1, 8)));
        assert(acc0 as int == bytes_le_val(bytes@.subrange(0, 8)));
        lemma_bytes_le_val_split(bytes@, 8);
        lemma_bytes_le_val_bound(bytes@.take(8));
        lemma_bytes_le_val_bound(bytes@.skip(8));
        assert(bytes@.subrange(0, 8) =~= bytes@.take(8));
        assert(pow256(0) == 1);
        assert(pow256(1) == 256);
        assert(pow256(2) == 65536);
        assert(pow256(3) == 0x1000000);
        assert(pow256(4) == 0x100000000);
        assert(pow256(5) == 0x10000000000);
        assert(pow256(6) == 0x1000000000000);
        assert(pow256(7) == 0x100000000000000);
        assert(pow256(8) == 0x10000000000000000);
        if scalar_val(*a) < 0x10000000000000000 && bytes_le_val(bytes@.skip(8)) > 0 {
            assert(pow256(8) * bytes_le_val(bytes@.skip(8)) >= pow256(8)) by (nonlinear_arith)
                requires
                    bytes_le_val(bytes@.skip(8)) >= 1,
                    pow256(8) == 0x10000000000000000,
            ;
            assert(false);
        }
    }
    acc0
}

} // verus!
