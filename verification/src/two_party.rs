//! Two-party executions of the protocols, and the laws they obey.
//!
//! A jointly held value is a pair of per-party handles: party 0's (the
//! king's) and party 1's.  `consistent` states the invariants that tie the
//! two sides together — equal visibilities, bit-equal plaintexts for
//! Public values, canonical shares — and `joint_val` is the value the pair
//! represents: the plaintext itself when Public, the sum of the two shares
//! mod ℓ when Shared.
//!
//! The functions here run both parties' halves of a protocol step,
//! handing each side exactly the messages the other sends, and their
//! contracts state the joint correctness of the step.  The proof
//! functions are the general laws: opening inverts sharing, the operators
//! are homomorphic over `joint_val`, and the Beaver identity.

use crate::authenticated_ristretto::{AuthPointView, AuthenticatedRistretto};
use crate::authenticated_scalar::{AuthView, AuthenticatedScalar};
use crate::commitment::{RistrettoCommitment, RistrettoPointCommitment};
use crate::curve::{point_val, scalar_val};
use crate::modular::{
    cong, fadd, fmul, fneg, fsub, group_order, in_field, lemma_cong_add, lemma_cong_in_field,
    lemma_cong_mul, lemma_cong_sub, lemma_fadd_4, lemma_fadd_cong, lemma_fadd_cong_both,
    lemma_fadd_fneg, lemma_fadd_reorder, lemma_field_ops_in_field, lemma_fmul_cong,
    lemma_fmul_cong_both, lemma_fneg_cong, lemma_fsub_cong, lemma_mask_unmask,
    lemma_small_nonzero_mod,
};
use crate::mpc_ristretto::MpcRistrettoPoint;
use crate::mpc_scalar::{
    both_shared, lemma_shared_count_bounds, spec_add_val, spec_batch_mul, spec_beaver_share,
    spec_shared_count, spec_sub_val, spec_sum_views, MpcScalar, ShareView,
};
use crate::visibility::Visibility;
use curve25519_dalek::scalar::Scalar;
use vstd::arithmetic::div_mod::lemma_small_mod;
use vstd::arithmetic::mul::lemma_mul_is_distributive_add;
use vstd::prelude::*;

verus! {

/// The invariants tying the two parties' handles on one value together:
/// party ids 0 and 1, equal visibilities (neither Private: a private value
/// exists on one party only), bit-equal plaintexts when Public, and
/// canonical shares.
pub open spec fn consistent(x0: ShareView, x1: ShareView) -> bool {
    &&& x0.party == 0
    &&& x1.party == 1
    &&& x0.vis == x1.vis
    &&& (x0.vis == Visibility::Public || x0.vis == Visibility::Shared)
    &&& (x0.vis == Visibility::Public ==> x0.val == x1.val)
    &&& in_field(x0.val)
    &&& in_field(x1.val)
}

/// The value a consistent pair represents: the plaintext when Public, the
/// sum of the two shares mod ℓ when Shared.
pub open spec fn joint_val(x0: ShareView, x1: ShareView) -> int {
    if x0.vis == Visibility::Public {
        x0.val
    } else {
        fadd(x0.val, x1.val)
    }
}

/// A pair of per-party Beaver triple shares is consistent when all six
/// shares are canonical and the reconstructed c equals the product of the
/// reconstructed a and b.
pub open spec fn triple_consistent(t0: (Scalar, Scalar, Scalar), t1: (Scalar, Scalar, Scalar)) -> bool {
    &&& in_field(scalar_val(t0.0))
    &&& in_field(scalar_val(t0.1))
    &&& in_field(scalar_val(t0.2))
    &&& in_field(scalar_val(t1.0))
    &&& in_field(scalar_val(t1.1))
    &&& in_field(scalar_val(t1.2))
    &&& fadd(scalar_val(t0.2), scalar_val(t1.2)) == fmul(
        fadd(scalar_val(t0.0), scalar_val(t1.0)),
        fadd(scalar_val(t0.1), scalar_val(t1.1)),
    )
}

/// Opening inverts sharing: the owner's share v - m plus the peer's share
/// m reconstruct v.
pub proof fn lemma_share_open_roundtrip(v: int, m: int)
    requires
        in_field(v),
    ensures
        fadd(fsub(v, m), m) == v,
        fadd(m, fsub(v, m)) == v,
{
    lemma_mask_unmask(v, m);
}

/// Addition is homomorphic over `joint_val`, for every visibility
/// assignment of the operands, and the result's visibility is the minimum
/// of the operands'.
pub proof fn lemma_add_homomorphic(x0: ShareView, x1: ShareView, y0: ShareView, y1: ShareView)
    requires
        consistent(x0, x1),
        consistent(y0, y1),
    ensures
        ({
            let r0 = ShareView {
                val: spec_add_val(x0, y0),
                vis: Visibility::spec_min(x0.vis, y0.vis),
                party: 0,
            };
            let r1 = ShareView {
                val: spec_add_val(x1, y1),
                vis: Visibility::spec_min(x1.vis, y1.vis),
                party: 1,
            };
            consistent(r0, r1) && joint_val(r0, r1) == fadd(joint_val(x0, x1), joint_val(y0, y1))
        }),
{
    lemma_field_ops_in_field(x0.val, y0.val);
    lemma_field_ops_in_field(x1.val, y1.val);
    lemma_field_ops_in_field(x0.val, x1.val);
    lemma_field_ops_in_field(y0.val, y1.val);
    if x0.vis == Visibility::Shared && y0.vis == Visibility::Shared {
        lemma_fadd_4(x0.val, y0.val, x1.val, y1.val);
    } else if x0.vis == Visibility::Shared && y0.vis == Visibility::Public {
        lemma_fadd_reorder(x0.val, y0.val, x1.val);
    } else if x0.vis == Visibility::Public && y0.vis == Visibility::Shared {
        lemma_fadd_reorder(x0.val, y0.val, y1.val);
    }
}

/// Negation is homomorphic over `joint_val`.
pub proof fn lemma_neg_homomorphic(x0: ShareView, x1: ShareView)
    requires
        consistent(x0, x1),
    ensures
        ({
            let r0 = ShareView { val: fneg(x0.val), vis: x0.vis, party: 0 };
            let r1 = ShareView { val: fneg(x1.val), vis: x1.vis, party: 1 };
            consistent(r0, r1) && joint_val(r0, r1) == fneg(joint_val(x0, x1))
        }),
{
    lemma_field_ops_in_field(x0.val, x1.val);
    lemma_field_ops_in_field(x1.val, x0.val);
    if x0.vis == Visibility::Shared {
        lemma_fneg_cong(x0.val);
        lemma_fneg_cong(x1.val);
        lemma_fadd_cong_both(fneg(x0.val), fneg(x1.val), 0 - x0.val, 0 - x1.val);
        lemma_fadd_cong(x0.val, x1.val);
        lemma_cong_sub(0, fadd(x0.val, x1.val), 0, x0.val + x1.val);
        lemma_fneg_cong(fadd(x0.val, x1.val));
        lemma_field_ops_in_field(fneg(x0.val), fneg(x1.val));
        lemma_field_ops_in_field(fadd(x0.val, x1.val), 0);
        lemma_cong_in_field(
            fadd(fneg(x0.val), fneg(x1.val)),
            fneg(fadd(x0.val, x1.val)),
        );
    }
}

/// Subtraction is homomorphic over `joint_val`.
pub proof fn lemma_sub_homomorphic(x0: ShareView, x1: ShareView, y0: ShareView, y1: ShareView)
    requires
        consistent(x0, x1),
        consistent(y0, y1),
    ensures
        ({
            let r0 = ShareView {
                val: spec_sub_val(x0, y0),
                vis: Visibility::spec_min(x0.vis, y0.vis),
                party: 0,
            };
            let r1 = ShareView {
                val: spec_sub_val(x1, y1),
                vis: Visibility::spec_min(x1.vis, y1.vis),
                party: 1,
            };
            consistent(r0, r1) && joint_val(r0, r1) == fsub(joint_val(x0, x1), joint_val(y0, y1))
        }),
{
    let n0 = ShareView { val: fneg(y0.val), ..y0 };
    let n1 = ShareView { val: fneg(y1.val), ..y1 };
    lemma_neg_homomorphic(y0, y1);
    lemma_add_homomorphic(x0, x1, n0, n1);
    lemma_fadd_fneg(joint_val(x0, x1), joint_val(y0, y1));
}

/// Multiplying a sharing by a public factor termwise multiplies the joint
/// value, in either factor order.
pub proof fn lemma_mul_public_shared(s0: int, s1: int, p: int)
    ensures
        fadd(fmul(s0, p), fmul(s1, p)) == fmul(fadd(s0, s1), p),
        fadd(fmul(p, s0), fmul(p, s1)) == fmul(p, fadd(s0, s1)),
{
    lemma_fmul_cong(s0, p);
    lemma_fmul_cong(s1, p);
    lemma_fmul_cong(p, s0);
    lemma_fmul_cong(p, s1);
    lemma_fadd_cong_both(fmul(s0, p), fmul(s1, p), s0 * p, s1 * p);
    lemma_fadd_cong_both(fmul(p, s0), fmul(p, s1), p * s0, p * s1);
    lemma_fadd_cong(s0, s1);
    lemma_fmul_cong_both(fadd(s0, s1), p, s0 + s1, p);
    lemma_fmul_cong_both(p, fadd(s0, s1), p, s0 + s1);
    assert((s0 + s1) * p == s0 * p + s1 * p) by (nonlinear_arith);
    assert(p * (s0 + s1) == p * s0 + p * s1) by (nonlinear_arith);
    lemma_field_ops_in_field(fmul(s0, p), fmul(s1, p));
    lemma_field_ops_in_field(fmul(p, s0), fmul(p, s1));
    lemma_field_ops_in_field(fadd(s0, s1), p);
    lemma_cong_in_field(fadd(fmul(s0, p), fmul(s1, p)), fmul(fadd(s0, s1), p));
    lemma_cong_in_field(fadd(fmul(p, s0), fmul(p, s1)), fmul(p, fadd(s0, s1)));
}

/// The Beaver identity: with a consistent triple, the two parties' result
/// shares — each built from the opened maskings d = x - a and e = y - b,
/// the cross term d·e added by the king alone — sum to the product of the
/// joint operands.
#[verifier::rlimit(60)]
pub proof fn lemma_beaver_mul(
    x0: int,
    x1: int,
    y0: int,
    y1: int,
    a0: int,
    a1: int,
    b0: int,
    b1: int,
    c0: int,
    c1: int,
)
    requires
        in_field(x0),
        in_field(x1),
        in_field(y0),
        in_field(y1),
        in_field(a0),
        in_field(a1),
        in_field(b0),
        in_field(b1),
        in_field(c0),
        in_field(c1),
        fadd(c0, c1) == fmul(fadd(a0, a1), fadd(b0, b1)),
    ensures
        ({
            let d = fadd(fsub(x0, a0), fsub(x1, a1));
            let e = fadd(fsub(y0, b0), fsub(y1, b1));
            fadd(
                spec_beaver_share(d, e, a0, b0, c0, true),
                spec_beaver_share(d, e, a1, b1, c1, false),
            ) == fmul(fadd(x0, x1), fadd(y0, y1))
        }),
{
    let d = fadd(fsub(x0, a0), fsub(x1, a1));
    let e = fadd(fsub(y0, b0), fsub(y1, b1));
    let xx = x0 + x1;
    let yy = y0 + y1;
    let aa = a0 + a1;
    let bb = b0 + b1;
    let cc = c0 + c1;

    // The opened maskings are congruent to the joint maskings.
    lemma_fsub_cong(x0, a0);
    lemma_fsub_cong(x1, a1);
    lemma_fadd_cong_both(fsub(x0, a0), fsub(x1, a1), x0 - a0, x1 - a1);
    assert(cong(d, xx - aa));
    lemma_fsub_cong(y0, b0);
    lemma_fsub_cong(y1, b1);
    lemma_fadd_cong_both(fsub(y0, b0), fsub(y1, b1), y0 - b0, y1 - b1);
    assert(cong(e, yy - bb));

    // The triple's joint c is congruent to the joint product a·b.
    lemma_fadd_cong(a0, a1);
    lemma_fadd_cong(b0, b1);
    lemma_fmul_cong_both(fadd(a0, a1), fadd(b0, b1), aa, bb);
    lemma_fadd_cong(c0, c1);
    assert(cong(cc, aa * bb));

    // Each party's share is congruent to its integer expression.
    lemma_fmul_cong(d, b0);
    lemma_fmul_cong(e, a0);
    lemma_fadd_cong_both(fmul(d, b0), fmul(e, a0), d * b0, e * a0);
    lemma_fadd_cong_both(fadd(fmul(d, b0), fmul(e, a0)), c0, d * b0 + e * a0, c0);
    lemma_fmul_cong(d, e);
    lemma_fadd_cong_both(
        fmul(d, e),
        fadd(fadd(fmul(d, b0), fmul(e, a0)), c0),
        d * e,
        d * b0 + e * a0 + c0,
    );
    assert(cong(spec_beaver_share(d, e, a0, b0, c0, true), d * e + (d * b0 + e * a0 + c0)));

    lemma_fmul_cong(d, b1);
    lemma_fmul_cong(e, a1);
    lemma_fadd_cong_both(fmul(d, b1), fmul(e, a1), d * b1, e * a1);
    lemma_fadd_cong_both(fadd(fmul(d, b1), fmul(e, a1)), c1, d * b1 + e * a1, c1);
    assert(cong(spec_beaver_share(d, e, a1, b1, c1, false), d * b1 + e * a1 + c1));

    // The sum of the shares is congruent to d·e + d·b + e·a + c.
    lemma_fadd_cong_both(
        spec_beaver_share(d, e, a0, b0, c0, true),
        spec_beaver_share(d, e, a1, b1, c1, false),
        d * e + (d * b0 + e * a0 + c0),
        d * b1 + e * a1 + c1,
    );
    lemma_mul_is_distributive_add(d, b0, b1);
    lemma_mul_is_distributive_add(e, a0, a1);
    let s = fadd(
        spec_beaver_share(d, e, a0, b0, c0, true),
        spec_beaver_share(d, e, a1, b1, c1, false),
    );
    assert(cong(s, d * e + d * bb + e * aa + cc));

    // Substitute the congruent joint values into the polynomial.
    lemma_cong_mul(d, e, xx - aa, yy - bb);
    lemma_cong_mul(d, bb, xx - aa, bb);
    lemma_cong_mul(e, aa, yy - bb, aa);
    lemma_cong_add(d * e, d * bb, (xx - aa) * (yy - bb), (xx - aa) * bb);
    lemma_cong_add(d * e + d * bb, e * aa, (xx - aa) * (yy - bb) + (xx - aa) * bb, (yy - bb) * aa);
    lemma_cong_add(
        d * e + d * bb + e * aa,
        cc,
        (xx - aa) * (yy - bb) + (xx - aa) * bb + (yy - bb) * aa,
        aa * bb,
    );
    assert(cong(s, (xx - aa) * (yy - bb) + (xx - aa) * bb + (yy - bb) * aa + aa * bb));

    // The Beaver polynomial identity.
    assert((xx - aa) * (yy - bb) + (xx - aa) * bb + (yy - bb) * aa + aa * bb == xx * yy)
        by (nonlinear_arith);
    assert(cong(s, xx * yy));

    // Both sides are field elements, so congruence is equality.
    lemma_fadd_cong(x0, x1);
    lemma_fadd_cong(y0, y1);
    lemma_fmul_cong_both(fadd(x0, x1), fadd(y0, y1), xx, yy);
    lemma_field_ops_in_field(
        spec_beaver_share(d, e, a0, b0, c0, true),
        spec_beaver_share(d, e, a1, b1, c1, false),
    );
    lemma_field_ops_in_field(fadd(x0, x1), fadd(y0, y1));
    lemma_cong_in_field(s, fmul(fadd(x0, x1), fadd(y0, y1)));
}

/// Run `share_secret` on both parties: the owner samples a blinder, keeps
/// v - r, and sends r; the peer holds r.  The results form a consistent
/// Shared pair whose joint value is the owner's input.
pub fn share_scalar(v: &MpcScalar) -> (r: (MpcScalar, MpcScalar))
    requires
        v.wf(),
        v@.vis == Visibility::Private,
    ensures
        r.0.wf(),
        r.1.wf(),
        consistent(r.0@, r.1@),
        r.0@.vis == Visibility::Shared,
        joint_val(r.0@, r.1@) == v@.val,
{
    let owner_is_king = v.party_id() == 0;
    let (own_share, msg) = match v.share_secret() {
        Ok(p) => p,
        Err(_) => unreached(),
    };
    let peer_id: u64 = if owner_is_king {
        1
    } else {
        0
    };
    let peer_share = MpcScalar::receive_value(msg, peer_id);
    proof {
        lemma_share_open_roundtrip(v@.val, scalar_val(msg));
    }
    if owner_is_king {
        (own_share, peer_share)
    } else {
        (peer_share, own_share)
    }
}

/// Run `open` on both parties, handing each the peer's broadcast share.
/// Both results are Public copies of the joint value.
pub fn open_pair(x0: &MpcScalar, x1: &MpcScalar) -> (r: (MpcScalar, MpcScalar))
    requires
        x0.wf(),
        x1.wf(),
        consistent(x0@, x1@),
    ensures
        r.0.wf(),
        r.1.wf(),
        consistent(r.0@, r.1@),
        r.0@.vis == Visibility::Public,
        r.0@.val == joint_val(x0@, x1@),
        r.1@.val == joint_val(x0@, x1@),
{
    let m0 = x0.value();
    let m1 = x1.value();
    let r0 = match x0.open(&m1) {
        Ok(v) => v,
        Err(_) => unreached(),
    };
    let r1 = match x1.open(&m0) {
        Ok(v) => v,
        Err(_) => unreached(),
    };
    (r0, r1)
}

/// Add on both parties.  The pair stays consistent and the joint values
/// add; the visibility of the result is the minimum of the operands'.
pub fn add_pair(x0: &MpcScalar, x1: &MpcScalar, y0: &MpcScalar, y1: &MpcScalar) -> (r: (
    MpcScalar,
    MpcScalar,
))
    requires
        x0.wf(),
        x1.wf(),
        y0.wf(),
        y1.wf(),
        consistent(x0@, x1@),
        consistent(y0@, y1@),
    ensures
        r.0.wf(),
        r.1.wf(),
        consistent(r.0@, r.1@),
        r.0@.vis == Visibility::spec_min(x0@.vis, y0@.vis),
        joint_val(r.0@, r.1@) == fadd(joint_val(x0@, x1@), joint_val(y0@, y1@)),
{
    proof {
        lemma_add_homomorphic(x0@, x1@, y0@, y1@);
    }
    (x0.add(y0), x1.add(y1))
}

/// Subtract on both parties.
pub fn sub_pair(x0: &MpcScalar, x1: &MpcScalar, y0: &MpcScalar, y1: &MpcScalar) -> (r: (
    MpcScalar,
    MpcScalar,
))
    requires
        x0.wf(),
        x1.wf(),
        y0.wf(),
        y1.wf(),
        consistent(x0@, x1@),
        consistent(y0@, y1@),
    ensures
        r.0.wf(),
        r.1.wf(),
        consistent(r.0@, r.1@),
        r.0@.vis == Visibility::spec_min(x0@.vis, y0@.vis),
        joint_val(r.0@, r.1@) == fsub(joint_val(x0@, x1@), joint_val(y0@, y1@)),
{
    proof {
        lemma_sub_homomorphic(x0@, x1@, y0@, y1@);
    }
    (x0.sub(y0), x1.sub(y1))
}

/// Multiply on both parties, consuming one Beaver triple when both
/// operands are Shared.  The joint values multiply; the visibility of the
/// result is the minimum of the operands'.
pub fn mul_pair(
    x0: &MpcScalar,
    x1: &MpcScalar,
    y0: &MpcScalar,
    y1: &MpcScalar,
    t0: &(Scalar, Scalar, Scalar),
    t1: &(Scalar, Scalar, Scalar),
) -> (r: (MpcScalar, MpcScalar))
    requires
        x0.wf(),
        x1.wf(),
        y0.wf(),
        y1.wf(),
        consistent(x0@, x1@),
        consistent(y0@, y1@),
        x0@.vis == Visibility::Shared && y0@.vis == Visibility::Shared ==> triple_consistent(
            *t0,
            *t1,
        ),
    ensures
        r.0.wf(),
        r.1.wf(),
        consistent(r.0@, r.1@),
        r.0@.vis == Visibility::spec_min(x0@.vis, y0@.vis),
        joint_val(r.0@, r.1@) == fmul(joint_val(x0@, x1@), joint_val(y0@, y1@)),
{
    if x0.is_shared() && y0.is_shared() {
        let (d0, e0) = x0.beaver_masked(y0, &t0.0, &t0.1);
        let (d1, e1) = x1.beaver_masked(y1, &t1.0, &t1.1);
        let r0 = match x0.mul(y0, t0, &d1, &e1) {
            Ok(v) => v,
            Err(_) => unreached(),
        };
        let r1 = match x1.mul(y1, t1, &d0, &e0) {
            Ok(v) => v,
            Err(_) => unreached(),
        };
        proof {
            lemma_beaver_mul(
                x0@.val,
                x1@.val,
                y0@.val,
                y1@.val,
                scalar_val(t0.0),
                scalar_val(t1.0),
                scalar_val(t0.1),
                scalar_val(t1.1),
                scalar_val(t0.2),
                scalar_val(t1.2),
            );
        }
        (r0, r1)
    } else {
        let r0 = match x0.mul_public(y0) {
            Ok(v) => v,
            Err(_) => unreached(),
        };
        let r1 = match x1.mul_public(y1) {
            Ok(v) => v,
            Err(_) => unreached(),
        };
        proof {
            if x0@.vis == Visibility::Shared {
                lemma_mul_public_shared(x0@.val, x1@.val, y0@.val);
            } else if y0@.vis == Visibility::Shared {
                lemma_mul_public_shared(y0@.val, y1@.val, x0@.val);
            }
            lemma_field_ops_in_field(x0@.val, y0@.val);
            lemma_field_ops_in_field(x1@.val, y1@.val);
        }
        (r0, r1)
    }
}

/// The joint values of a pair of per-party vectors, elementwise.
pub open spec fn spec_joint_vals(x0s: Seq<MpcScalar>, x1s: Seq<MpcScalar>) -> Seq<int> {
    Seq::new(x0s.len(), |j: int| joint_val(x0s[j]@, x1s[j]@))
}

/// The left fold of field addition over the first i values.
pub open spec fn spec_fold_fadd(vals: Seq<int>, i: int) -> int
    decreases i,
{
    if i <= 0 {
        0
    } else {
        fadd(spec_fold_fadd(vals, i - 1), vals[i - 1])
    }
}

/// The left fold of field multiplication over the first i values.
pub open spec fn spec_fold_fmul(vals: Seq<int>, i: int) -> int
    decreases i,
{
    if i <= 0 {
        1
    } else {
        fmul(spec_fold_fmul(vals, i - 1), vals[i - 1])
    }
}

/// Summation is homomorphic over `joint_val`: the two parties' local left
/// folds of `add` form a consistent pair whose joint value is the field
/// sum of the joint values.
pub proof fn lemma_sum_homomorphic(v0: Seq<ShareView>, v1: Seq<ShareView>, joints: Seq<int>, i: int)
    requires
        0 <= i,
        forall|j: int| 0 <= j < i ==> consistent(#[trigger] v0[j], #[trigger] v1[j]),
        forall|j: int| 0 <= j < i ==> #[trigger] joints[j] == joint_val(v0[j], v1[j]),
    ensures
        consistent(spec_sum_views(v0, 0, i), spec_sum_views(v1, 1, i)),
        joint_val(spec_sum_views(v0, 0, i), spec_sum_views(v1, 1, i)) == spec_fold_fadd(joints, i),
    decreases i,
{
    if i > 0 {
        lemma_sum_homomorphic(v0, v1, joints, i - 1);
        lemma_add_homomorphic(
            spec_sum_views(v0, 0, i - 1),
            spec_sum_views(v1, 1, i - 1),
            v0[i - 1],
            v1[i - 1],
        );
    }
}

/// Two consistent operand vectors show the same Shared×Shared pattern to
/// both parties, so both consume triples and maskings at the same
/// positions.
pub proof fn lemma_shared_count_eq(
    x0s: Seq<MpcScalar>,
    y0s: Seq<MpcScalar>,
    x1s: Seq<MpcScalar>,
    y1s: Seq<MpcScalar>,
    i: int,
)
    requires
        forall|j: int|
            0 <= j < i ==> (#[trigger] x0s[j])@.vis == x1s[j]@.vis && y0s[j]@.vis == y1s[j]@.vis,
    ensures
        spec_shared_count(x0s, y0s, i) == spec_shared_count(x1s, y1s, i),
    decreases i,
{
    if i > 0 {
        lemma_shared_count_eq(x0s, y0s, x1s, y1s, i - 1);
    }
}

/// The joint values of the elementwise products of two consistent
/// vector pairs.
#[verifier::opaque]
pub open spec fn spec_products_joint(
    v0s: Seq<MpcScalar>,
    v1s: Seq<MpcScalar>,
    c0s: Seq<MpcScalar>,
    c1s: Seq<MpcScalar>,
) -> Seq<int> {
    Seq::new(
        v0s.len(),
        |j: int| fmul(joint_val(v0s[j]@, v1s[j]@), joint_val(c0s[j]@, c1s[j]@)),
    )
}

/// Multiply two batches elementwise on both parties, consuming one
/// consistent triple pair per Shared×Shared element: the joint value of
/// every output is the product of the joint values of its operands, with
/// the minimum visibility.
#[verifier::rlimit(60)]
pub fn batch_mul_pair(
    x0s: &Vec<MpcScalar>,
    x1s: &Vec<MpcScalar>,
    y0s: &Vec<MpcScalar>,
    y1s: &Vec<MpcScalar>,
    t0s: &Vec<(Scalar, Scalar, Scalar)>,
    t1s: &Vec<(Scalar, Scalar, Scalar)>,
) -> (r: (Vec<MpcScalar>, Vec<MpcScalar>))
    requires
        x1s@.len() == x0s@.len(),
        y0s@.len() == x0s@.len(),
        y1s@.len() == x0s@.len(),
        forall|i: int|
            0 <= i < x0s@.len() ==> (#[trigger] x0s@[i]).wf() && x1s@[i].wf() && consistent(
                x0s@[i]@,
                x1s@[i]@,
            ),
        forall|i: int|
            0 <= i < y0s@.len() ==> (#[trigger] y0s@[i]).wf() && y1s@[i].wf() && consistent(
                y0s@[i]@,
                y1s@[i]@,
            ),
        t0s@.len() == spec_shared_count(x0s@, y0s@, x0s@.len() as int),
        t1s@.len() == t0s@.len(),
        forall|k: int| 0 <= k < t0s@.len() ==> triple_consistent(#[trigger] t0s@[k], t1s@[k]),
    ensures
        r.0@.len() == x0s@.len(),
        r.1@.len() == x0s@.len(),
        forall|i: int|
            0 <= i < x0s@.len() ==> {
                let o0 = #[trigger] r.0@[i];
                let o1 = r.1@[i];
                &&& o0.wf()
                &&& o1.wf()
                &&& consistent(o0@, o1@)
                &&& o0@.vis == Visibility::spec_min(x0s@[i]@.vis, y0s@[i]@.vis)
                &&& joint_val(o0@, o1@) == fmul(
                    joint_val(x0s@[i]@, x1s@[i]@),
                    joint_val(y0s@[i]@, y1s@[i]@),
                )
            },
{
    let n = x0s.len();
    proof {
        assert forall|i: int| 0 <= i < x1s@.len() implies (#[trigger] x1s@[i]).wf() && y1s@[i].wf()
            && x1s@[i]@.party == y1s@[i]@.party && x1s@[i]@.vis != Visibility::Private
            && y1s@[i]@.vis != Visibility::Private && x0s@[i]@.party == y0s@[i]@.party
            && x0s@[i]@.vis != Visibility::Private && y0s@[i]@.vis != Visibility::Private by {
            assert(consistent(x0s@[i]@, x1s@[i]@));
            assert(consistent(y0s@[i]@, y1s@[i]@));
        }
        assert forall|i: int| 0 <= i < y1s@.len() implies (#[trigger] y1s@[i]).wf() by {
            assert(consistent(y0s@[i]@, y1s@[i]@));
        }
        assert forall|j: int|
            0 <= j < n implies (#[trigger] x0s@[j])@.vis == x1s@[j]@.vis && y0s@[j]@.vis
                == y1s@[j]@.vis by {
            assert(consistent(x0s@[j]@, x1s@[j]@));
            assert(consistent(y0s@[j]@, y1s@[j]@));
        }
        lemma_shared_count_eq(x0s@, y0s@, x1s@, y1s@, n as int);
    }
    let m0 = MpcScalar::batch_mul_message(x0s, y0s, t0s);
    let m1 = MpcScalar::batch_mul_message(x1s, y1s, t1s);
    let r0 = match MpcScalar::batch_mul(x0s, y0s, t0s, &m1) {
        Ok(v) => v,
        Err(_) => unreached(),
    };
    let r1 = match MpcScalar::batch_mul(x1s, y1s, t1s, &m0) {
        Ok(v) => v,
        Err(_) => unreached(),
    };
    proof {
        assert forall|i: int| 0 <= i < x0s@.len() implies {
            let o0 = #[trigger] r0@[i];
            let o1 = r1@[i];
            &&& o0.wf()
            &&& o1.wf()
            &&& consistent(o0@, o1@)
            &&& o0@.vis == Visibility::spec_min(x0s@[i]@.vis, y0s@[i]@.vis)
            &&& joint_val(o0@, o1@) == fmul(
                joint_val(x0s@[i]@, x1s@[i]@),
                joint_val(y0s@[i]@, y1s@[i]@),
            )
        } by {
            assert(consistent(x0s@[i]@, x1s@[i]@));
            assert(consistent(y0s@[i]@, y1s@[i]@));
            lemma_shared_count_eq(x0s@, y0s@, x1s@, y1s@, i);
            let k = spec_shared_count(x0s@, y0s@, i);
            assert(r0@[i]@ == spec_batch_mul(x0s@, y0s@, t0s@, m1@)[i]);
            assert(r1@[i]@ == spec_batch_mul(x1s@, y1s@, t1s@, m0@)[i]);
            if both_shared(x0s@[i], y0s@[i]) {
                lemma_shared_count_bounds(x0s@, y0s@, 0, i);
                lemma_shared_count_bounds(x0s@, y0s@, i + 1, n as int);
                assert(spec_shared_count(x0s@, y0s@, i + 1) == k + 1);
                assert(both_shared(x1s@[i], y1s@[i]));
                assert(triple_consistent(t0s@[k], t1s@[k]));
                assert(scalar_val(m1@[2 * k]) == fsub(x1s@[i]@.val, scalar_val(t1s@[k].0)));
                assert(scalar_val(m1@[2 * k + 1]) == fsub(y1s@[i]@.val, scalar_val(t1s@[k].1)));
                assert(scalar_val(m0@[2 * k]) == fsub(x0s@[i]@.val, scalar_val(t0s@[k].0)));
                assert(scalar_val(m0@[2 * k + 1]) == fsub(y0s@[i]@.val, scalar_val(t0s@[k].1)));
                lemma_beaver_mul(
                    x0s@[i]@.val,
                    x1s@[i]@.val,
                    y0s@[i]@.val,
                    y1s@[i]@.val,
                    scalar_val(t0s@[k].0),
                    scalar_val(t1s@[k].0),
                    scalar_val(t0s@[k].1),
                    scalar_val(t1s@[k].1),
                    scalar_val(t0s@[k].2),
                    scalar_val(t1s@[k].2),
                );
            } else {
                if x0s@[i]@.vis == Visibility::Shared {
                    lemma_mul_public_shared(x0s@[i]@.val, x1s@[i]@.val, y0s@[i]@.val);
                } else if y0s@[i]@.vis == Visibility::Shared {
                    lemma_mul_public_shared(y0s@[i]@.val, y1s@[i]@.val, x0s@[i]@.val);
                }
                lemma_field_ops_in_field(x0s@[i]@.val, y0s@[i]@.val);
                lemma_field_ops_in_field(x1s@[i]@.val, y1s@[i]@.val);
            }
        }
    }
    (r0, r1)
}

/// Sum a batch on both parties: a fully local fold whose joint value is
/// the field sum of the joint values.
pub fn sum_pair(x0s: &Vec<MpcScalar>, x1s: &Vec<MpcScalar>) -> (r: (MpcScalar, MpcScalar))
    requires
        x1s@.len() == x0s@.len(),
        forall|i: int|
            0 <= i < x0s@.len() ==> (#[trigger] x0s@[i]).wf() && x1s@[i].wf() && consistent(
                x0s@[i]@,
                x1s@[i]@,
            ),
    ensures
        r.0.wf(),
        r.1.wf(),
        consistent(r.0@, r.1@),
        joint_val(r.0@, r.1@) == spec_fold_fadd(spec_joint_vals(x0s@, x1s@), x0s@.len() as int),
{
    proof {
        assert forall|i: int| 0 <= i < x1s@.len() implies (#[trigger] x1s@[i]).wf() && x1s@[i]@.party
            == 1 && x0s@[i]@.party == 0 by {
            assert(consistent(x0s@[i]@, x1s@[i]@));
        }
    }
    let r0 = MpcScalar::sum(x0s, 0);
    let r1 = MpcScalar::sum(x1s, 1);
    proof {
        let v0 = x0s@.map_values(|v: MpcScalar| v@);
        let v1 = x1s@.map_values(|v: MpcScalar| v@);
        assert forall|j: int| 0 <= j < x0s@.len() implies consistent(
            #[trigger] v0[j],
            #[trigger] v1[j],
        ) && #[trigger] spec_joint_vals(x0s@, x1s@)[j] == joint_val(v0[j], v1[j]) by {
            assert(consistent(x0s@[j]@, x1s@[j]@));
        }
        lemma_sum_homomorphic(v0, v1, spec_joint_vals(x0s@, x1s@), x0s@.len() as int);
    }
    (r0, r1)
}

/// The linear combination Σ vᵢ·cᵢ on both parties: one batch
/// multiplication (two rounds) and a local summation.
#[verifier::rlimit(60)]
pub fn linear_combination_pair(
    v0s: &Vec<MpcScalar>,
    v1s: &Vec<MpcScalar>,
    c0s: &Vec<MpcScalar>,
    c1s: &Vec<MpcScalar>,
    t0s: &Vec<(Scalar, Scalar, Scalar)>,
    t1s: &Vec<(Scalar, Scalar, Scalar)>,
) -> (r: (MpcScalar, MpcScalar))
    requires
        v1s@.len() == v0s@.len(),
        c0s@.len() == v0s@.len(),
        c1s@.len() == v0s@.len(),
        forall|i: int|
            0 <= i < v0s@.len() ==> (#[trigger] v0s@[i]).wf() && v1s@[i].wf() && consistent(
                v0s@[i]@,
                v1s@[i]@,
            ),
        forall|i: int|
            0 <= i < c0s@.len() ==> (#[trigger] c0s@[i]).wf() && c1s@[i].wf() && consistent(
                c0s@[i]@,
                c1s@[i]@,
            ),
        t0s@.len() == spec_shared_count(v0s@, c0s@, v0s@.len() as int),
        t1s@.len() == t0s@.len(),
        forall|k: int| 0 <= k < t0s@.len() ==> triple_consistent(#[trigger] t0s@[k], t1s@[k]),
    ensures
        r.0.wf(),
        r.1.wf(),
        consistent(r.0@, r.1@),
        joint_val(r.0@, r.1@) == spec_fold_fadd(
            spec_products_joint(v0s@, v1s@, c0s@, c1s@),
            v0s@.len() as int,
        ),
{
    let (p0, p1) = batch_mul_pair(v0s, v1s, c0s, c1s, t0s, t1s);
    let r = sum_pair(&p0, &p1);
    proof {
        reveal(spec_products_joint);
        assert forall|j: int| 0 <= j < v0s@.len() implies #[trigger] spec_joint_vals(p0@, p1@)[j]
            == spec_products_joint(v0s@, v1s@, c0s@, c1s@)[j] by {
            assert(joint_val(p0@[j]@, p1@[j]@) == fmul(
                joint_val(v0s@[j]@, v1s@[j]@),
                joint_val(c0s@[j]@, c1s@[j]@),
            ));
        }
        assert(spec_joint_vals(p0@, p1@) =~= spec_products_joint(v0s@, v1s@, c0s@, c1s@));
    }
    r
}

/// The product of a batch of Shared values on both parties: a left fold
/// of Beaver multiplications from a Public one, consuming one triple pair
/// per factor.
pub fn product_pair(
    x0s: &Vec<MpcScalar>,
    x1s: &Vec<MpcScalar>,
    t0s: &Vec<(Scalar, Scalar, Scalar)>,
    t1s: &Vec<(Scalar, Scalar, Scalar)>,
) -> (r: (MpcScalar, MpcScalar))
    requires
        x1s@.len() == x0s@.len(),
        t0s@.len() == x0s@.len(),
        t1s@.len() == x0s@.len(),
        forall|i: int|
            0 <= i < x0s@.len() ==> (#[trigger] x0s@[i]).wf() && x1s@[i].wf() && consistent(
                x0s@[i]@,
                x1s@[i]@,
            ),
        forall|k: int| 0 <= k < t0s@.len() ==> triple_consistent(#[trigger] t0s@[k], t1s@[k]),
    ensures
        r.0.wf(),
        r.1.wf(),
        consistent(r.0@, r.1@),
        joint_val(r.0@, r.1@) == spec_fold_fmul(spec_joint_vals(x0s@, x1s@), x0s@.len() as int),
{
    let n = x0s.len();
    let mut acc0 = MpcScalar::from_public_u64(1, 0);
    let mut acc1 = MpcScalar::from_public_u64(1, 1);
    let mut i: usize = 0;
    while i < n
        invariant
            n == x0s@.len(),
            x1s@.len() == n,
            t0s@.len() == n,
            t1s@.len() == n,
            i <= n,
            forall|j: int|
                0 <= j < x0s@.len() ==> (#[trigger] x0s@[j]).wf() && x1s@[j].wf() && consistent(
                    x0s@[j]@,
                    x1s@[j]@,
                ),
            forall|k: int| 0 <= k < t0s@.len() ==> triple_consistent(#[trigger] t0s@[k], t1s@[k]),
            acc0.wf(),
            acc1.wf(),
            consistent(acc0@, acc1@),
            joint_val(acc0@, acc1@) == spec_fold_fmul(spec_joint_vals(x0s@, x1s@), i as int),
        decreases n - i,
    {
        let (n0, n1) = mul_pair(&acc0, &acc1, &x0s[i], &x1s[i], &t0s[i], &t1s[i]);
        acc0 = n0;
        acc1 = n1;
        i = i + 1;
    }
    (acc0, acc1)
}

/// Share a batch of Private values held by one party; the peer receives
/// its shares from the single batched message.
pub fn batch_share_pair(values: &Vec<MpcScalar>) -> (r: (Vec<MpcScalar>, Vec<MpcScalar>))
    requires
        forall|i: int|
            0 <= i < values@.len() ==> (#[trigger] values@[i]).wf() && values@[i]@.vis
                == Visibility::Private && values@[i]@.party == values@[0]@.party,
    ensures
        r.0@.len() == values@.len(),
        r.1@.len() == values@.len(),
        forall|i: int|
            0 <= i < values@.len() ==> {
                let s0 = #[trigger] r.0@[i];
                let s1 = r.1@[i];
                &&& s0.wf()
                &&& s1.wf()
                &&& consistent(s0@, s1@)
                &&& s0@.vis == Visibility::Shared
                &&& joint_val(s0@, s1@) == values@[i]@.val
            },
{
    let n = values.len();
    if n == 0 {
        return (Vec::new(), Vec::new());
    }
    let owner_is_king = values[0].party_id() == 0;
    let (own, msgs) = match MpcScalar::batch_share_secrets(values) {
        Ok(p) => p,
        Err(_) => unreached(),
    };
    let peer_id: u64 = if owner_is_king {
        1
    } else {
        0
    };
    let peer = MpcScalar::batch_receive_values(&msgs, peer_id);
    proof {
        assert forall|i: int| 0 <= i < values@.len() implies fadd(
            fsub(values@[i]@.val, scalar_val(msgs@[i])),
            scalar_val(msgs@[i]),
        ) == values@[i]@.val && fadd(
            scalar_val(msgs@[i]),
            fsub(values@[i]@.val, scalar_val(msgs@[i])),
        ) == values@[i]@.val by {
            lemma_share_open_roundtrip(values@[i]@.val, scalar_val(msgs@[i]));
        }
    }
    if owner_is_king {
        (own, peer)
    } else {
        (peer, own)
    }
}

/// Open a batch on both parties: the share vectors cross in one message
/// each way.
pub fn batch_open_pair(x0s: &Vec<MpcScalar>, x1s: &Vec<MpcScalar>) -> (r: (
    Vec<MpcScalar>,
    Vec<MpcScalar>,
))
    requires
        x0s@.len() == x1s@.len(),
        forall|i: int|
            0 <= i < x0s@.len() ==> (#[trigger] x0s@[i]).wf() && x1s@[i].wf()
                && consistent(x0s@[i]@, x1s@[i]@) && x0s@[i]@.vis == Visibility::Shared,
    ensures
        r.0@.len() == x0s@.len(),
        r.1@.len() == x0s@.len(),
        forall|i: int|
            0 <= i < x0s@.len() ==> {
                let o0 = #[trigger] r.0@[i];
                let o1 = r.1@[i];
                &&& o0.wf()
                &&& o1.wf()
                &&& consistent(o0@, o1@)
                &&& o0@.vis == Visibility::Public
                &&& o0@.val == joint_val(x0s@[i]@, x1s@[i]@)
                &&& o1@.val == joint_val(x0s@[i]@, x1s@[i]@)
            },
{
    proof {
        assert forall|i: int| 0 <= i < x1s@.len() implies (#[trigger] x1s@[i]).wf() && x1s@[i]@.vis
            == Visibility::Shared by {
            assert(consistent(x0s@[i]@, x1s@[i]@));
        }
    }
    let m0 = MpcScalar::batch_open_message(x0s);
    let m1 = MpcScalar::batch_open_message(x1s);
    let r0 = match MpcScalar::batch_open(x0s, &m1) {
        Ok(v) => v,
        Err(_) => unreached(),
    };
    let r1 = match MpcScalar::batch_open(x1s, &m0) {
        Ok(v) => v,
        Err(_) => unreached(),
    };
    proof {
        assert forall|i: int| 0 <= i < x0s@.len() implies {
            let o0 = #[trigger] r0@[i];
            let o1 = r1@[i];
            &&& o0.wf()
            &&& o1.wf()
            &&& consistent(o0@, o1@)
            &&& o0@.vis == Visibility::Public
            &&& o0@.val == joint_val(x0s@[i]@, x1s@[i]@)
            &&& o1@.val == joint_val(x0s@[i]@, x1s@[i]@)
        } by {
            assert(consistent(x0s@[i]@, x1s@[i]@));
            assert(r0@[i]@.val == fadd(x0s@[i]@.val, scalar_val(m1@[i])));
            assert(r1@[i]@.val == fadd(x1s@[i]@.val, scalar_val(m0@[i])));
            assert(scalar_val(m1@[i]) == x1s@[i]@.val);
            assert(scalar_val(m0@[i]) == x0s@[i]@.val);
        }
    }
    (r0, r1)
}

/// Commit to each share of a batch: the send half of a batched
/// commit-and-open.  Returns the commitment points, the blindings and the
/// committed values, in step.
pub fn commit_shares(xs: &Vec<MpcScalar>) -> (r: (
    Vec<curve25519_dalek::ristretto::RistrettoPoint>,
    Vec<Scalar>,
    Vec<Scalar>,
))
    ensures
        r.0@.len() == xs@.len(),
        r.1@.len() == xs@.len(),
        r.2@.len() == xs@.len(),
        forall|i: int|
            0 <= i < xs@.len() ==> crate::curve::point_val(#[trigger] r.0@[i])
                == crate::commitment::spec_pedersen(scalar_val(r.2@[i]), scalar_val(r.1@[i]))
                && scalar_val(r.2@[i]) == xs@[i]@.val,
{
    let n = xs.len();
    let mut points: Vec<curve25519_dalek::ristretto::RistrettoPoint> = Vec::new();
    let mut blindings: Vec<Scalar> = Vec::new();
    let mut values: Vec<Scalar> = Vec::new();
    let mut i: usize = 0;
    while i < n
        invariant
            n == xs@.len(),
            i <= n,
            points@.len() == i,
            blindings@.len() == i,
            values@.len() == i,
            forall|j: int|
                0 <= j < i ==> crate::curve::point_val(#[trigger] points@[j])
                    == crate::commitment::spec_pedersen(
                    scalar_val(values@[j]),
                    scalar_val(blindings@[j]),
                ) && scalar_val(values@[j]) == xs@[j]@.val,
        decreases n - i,
    {
        let c = RistrettoCommitment::commit(&xs[i].value());
        points.push(c.get_commitment());
        blindings.push(c.get_blinding());
        values.push(c.get_value());
        i = i + 1;
    }
    (points, blindings, values)
}

/// Commit-and-open a batch on both parties, honestly; every verification
/// succeeds and both sides obtain the joint values.
#[verifier::rlimit(60)]
pub fn batch_commit_and_open_pair(x0s: &Vec<MpcScalar>, x1s: &Vec<MpcScalar>) -> (r: (
    Vec<MpcScalar>,
    Vec<MpcScalar>,
))
    requires
        x0s@.len() == x1s@.len(),
        forall|i: int|
            0 <= i < x0s@.len() ==> (#[trigger] x0s@[i]).wf() && x1s@[i].wf()
                && consistent(x0s@[i]@, x1s@[i]@) && x0s@[i]@.vis == Visibility::Shared,
    ensures
        r.0@.len() == x0s@.len(),
        r.1@.len() == x0s@.len(),
        forall|i: int|
            0 <= i < x0s@.len() ==> {
                let o0 = #[trigger] r.0@[i];
                let o1 = r.1@[i];
                &&& o0.wf()
                &&& o1.wf()
                &&& consistent(o0@, o1@)
                &&& o0@.vis == Visibility::Public
                &&& o0@.val == joint_val(x0s@[i]@, x1s@[i]@)
                &&& o1@.val == joint_val(x0s@[i]@, x1s@[i]@)
            },
{
    proof {
        assert forall|i: int| 0 <= i < x1s@.len() implies (#[trigger] x1s@[i]).wf() && x1s@[i]@.vis
            == Visibility::Shared by {
            assert(consistent(x0s@[i]@, x1s@[i]@));
        }
    }
    let (c0points, c0blind, c0vals) = commit_shares(x0s);
    let (c1points, c1blind, c1vals) = commit_shares(x1s);
    let r0 = match MpcScalar::batch_commit_and_open(x0s, &c1points, &c1blind, &c1vals) {
        Ok(v) => v,
        Err(_) => unreached(),
    };
    let r1 = match MpcScalar::batch_commit_and_open(x1s, &c0points, &c0blind, &c0vals) {
        Ok(v) => v,
        Err(_) => unreached(),
    };
    proof {
        assert forall|idx: int| 0 <= idx < x0s@.len() implies scalar_val(
            #[trigger] c0vals@[idx],
        ) == x0s@[idx]@.val by {
            assert(crate::curve::point_val(c0points@[idx]) == crate::commitment::spec_pedersen(
                scalar_val(c0vals@[idx]),
                scalar_val(c0blind@[idx]),
            ) && scalar_val(c0vals@[idx]) == x0s@[idx]@.val);
        }
        assert forall|idx: int| 0 <= idx < x0s@.len() implies scalar_val(
            #[trigger] c1vals@[idx],
        ) == x1s@[idx]@.val by {
            assert(crate::curve::point_val(c1points@[idx]) == crate::commitment::spec_pedersen(
                scalar_val(c1vals@[idx]),
                scalar_val(c1blind@[idx]),
            ) && scalar_val(c1vals@[idx]) == x1s@[idx]@.val);
        }
        assert forall|idx: int| 0 <= idx < x0s@.len() implies {
            let o0 = #[trigger] r0@[idx];
            let o1 = r1@[idx];
            &&& o0.wf()
            &&& o1.wf()
            &&& consistent(o0@, o1@)
            &&& o0@.vis == Visibility::Public
            &&& o0@.val == joint_val(x0s@[idx]@, x1s@[idx]@)
            &&& o1@.val == joint_val(x0s@[idx]@, x1s@[idx]@)
        } by {
            assert(consistent(x0s@[idx]@, x1s@[idx]@));
            assert(scalar_val(c1vals@[idx]) == x1s@[idx]@.val);
            assert(scalar_val(c0vals@[idx]) == x0s@[idx]@.val);
            assert(r0@[idx]@.val == fadd(x0s@[idx]@.val, scalar_val(c1vals@[idx])));
            assert(r1@[idx]@.val == fadd(x1s@[idx]@.val, scalar_val(c0vals@[idx])));
        }
    }
    (r0, r1)
}

/// Run commit-and-open on both parties, honestly: each commits to its
/// share, the commitments and openings cross, and each verifies the
/// other.  Both verifications succeed and both parties obtain the joint
/// value as Public.
pub fn commit_and_open_pair(x0: &MpcScalar, x1: &MpcScalar) -> (r: (MpcScalar, MpcScalar))
    requires
        x0.wf(),
        x1.wf(),
        consistent(x0@, x1@),
        x0@.vis == Visibility::Shared,
    ensures
        r.0.wf(),
        r.1.wf(),
        consistent(r.0@, r.1@),
        r.0@.vis == Visibility::Public,
        r.0@.val == joint_val(x0@, x1@),
        r.1@.val == joint_val(x0@, x1@),
{
    let c0 = RistrettoCommitment::commit(&x0.value());
    let c1 = RistrettoCommitment::commit(&x1.value());
    let r0 = match x0.commit_and_open(&c1.get_commitment(), &c1.get_blinding(), &c1.get_value()) {
        Ok(v) => v,
        Err(_) => unreached(),
    };
    let r1 = match x1.commit_and_open(&c0.get_commitment(), &c0.get_blinding(), &c0.get_value()) {
        Ok(v) => v,
        Err(_) => unreached(),
    };
    (r0, r1)
}


/// Share a Private point on both parties.
pub fn share_point(v: &MpcRistrettoPoint) -> (r: (MpcRistrettoPoint, MpcRistrettoPoint))
    requires
        v.wf(),
        v@.vis == Visibility::Private,
    ensures
        r.0.wf(),
        r.1.wf(),
        consistent(r.0@, r.1@),
        r.0@.vis == Visibility::Shared,
        joint_val(r.0@, r.1@) == v@.val,
{
    let owner_is_king = v.party_id() == 0;
    let (own_share, msg) = match v.share_secret() {
        Ok(p) => p,
        Err(_) => unreached(),
    };
    let peer_id: u64 = if owner_is_king {
        1
    } else {
        0
    };
    let peer_share = MpcRistrettoPoint::receive_value(msg, peer_id);
    proof {
        lemma_share_open_roundtrip(v@.val, point_val(msg));
    }
    if owner_is_king {
        (own_share, peer_share)
    } else {
        (peer_share, own_share)
    }
}

/// Open a point on both parties.
pub fn open_point_pair(x0: &MpcRistrettoPoint, x1: &MpcRistrettoPoint) -> (r: (
    MpcRistrettoPoint,
    MpcRistrettoPoint,
))
    requires
        x0.wf(),
        x1.wf(),
        consistent(x0@, x1@),
    ensures
        r.0.wf(),
        r.1.wf(),
        consistent(r.0@, r.1@),
        r.0@.vis == Visibility::Public,
        r.0@.val == joint_val(x0@, x1@),
        r.1@.val == joint_val(x0@, x1@),
{
    let m0 = x0.value();
    let m1 = x1.value();
    let r0 = match x0.open(&m1) {
        Ok(v) => v,
        Err(_) => unreached(),
    };
    let r1 = match x1.open(&m0) {
        Ok(v) => v,
        Err(_) => unreached(),
    };
    (r0, r1)
}

/// Add points on both parties.
pub fn add_point_pair(
    x0: &MpcRistrettoPoint,
    x1: &MpcRistrettoPoint,
    y0: &MpcRistrettoPoint,
    y1: &MpcRistrettoPoint,
) -> (r: (MpcRistrettoPoint, MpcRistrettoPoint))
    requires
        x0.wf(),
        x1.wf(),
        y0.wf(),
        y1.wf(),
        consistent(x0@, x1@),
        consistent(y0@, y1@),
    ensures
        r.0.wf(),
        r.1.wf(),
        consistent(r.0@, r.1@),
        r.0@.vis == Visibility::spec_min(x0@.vis, y0@.vis),
        joint_val(r.0@, r.1@) == fadd(joint_val(x0@, x1@), joint_val(y0@, y1@)),
{
    proof {
        lemma_add_homomorphic(x0@, x1@, y0@, y1@);
    }
    (x0.add(y0), x1.add(y1))
}

/// Subtract points on both parties.
pub fn sub_point_pair(
    x0: &MpcRistrettoPoint,
    x1: &MpcRistrettoPoint,
    y0: &MpcRistrettoPoint,
    y1: &MpcRistrettoPoint,
) -> (r: (MpcRistrettoPoint, MpcRistrettoPoint))
    requires
        x0.wf(),
        x1.wf(),
        y0.wf(),
        y1.wf(),
        consistent(x0@, x1@),
        consistent(y0@, y1@),
    ensures
        r.0.wf(),
        r.1.wf(),
        consistent(r.0@, r.1@),
        r.0@.vis == Visibility::spec_min(x0@.vis, y0@.vis),
        joint_val(r.0@, r.1@) == fsub(joint_val(x0@, x1@), joint_val(y0@, y1@)),
{
    proof {
        lemma_sub_homomorphic(x0@, x1@, y0@, y1@);
    }
    (x0.sub(y0), x1.sub(y1))
}


/// Multiply two authenticated Shared values: one Beaver multiplication
/// for the value product and a second against the shared MAC key to
/// derive the product's MAC shares, so the result is again authenticated
/// under the same key.
pub fn authenticated_mul_pair(
    x0: &AuthenticatedScalar,
    x1: &AuthenticatedScalar,
    y0: &AuthenticatedScalar,
    y1: &AuthenticatedScalar,
    tv0: &(Scalar, Scalar, Scalar),
    tv1: &(Scalar, Scalar, Scalar),
    tm0: &(Scalar, Scalar, Scalar),
    tm1: &(Scalar, Scalar, Scalar),
) -> (r: (AuthenticatedScalar, AuthenticatedScalar))
    requires
        x0.wf(),
        x1.wf(),
        y0.wf(),
        y1.wf(),
        auth_consistent(x0@, x1@),
        auth_consistent(y0@, y1@),
        x0@.value.vis == Visibility::Shared,
        y0@.value.vis == Visibility::Shared,
        y0@.key == x0@.key,
        y1@.key == x1@.key,
        triple_consistent(*tv0, *tv1),
        triple_consistent(*tm0, *tm1),
    ensures
        r.0.wf(),
        r.1.wf(),
        auth_consistent(r.0@, r.1@),
        r.0@.value.vis == Visibility::Shared,
        r.0@.key == x0@.key,
        r.1@.key == x1@.key,
        joint_val(r.0@.value, r.1@.value) == fmul(
            joint_val(x0@.value, x1@.value),
            joint_val(y0@.value, y1@.value),
        ),
{
    let xv0 = x0.value();
    let xv1 = x1.value();
    let yv0 = y0.value();
    let yv1 = y1.value();
    let (z0, z1) = mul_pair(&xv0, &xv1, &yv0, &yv1, tv0, tv1);
    let k0 = x0.key_share();
    let k1 = x1.key_share();
    let (m0, m1) = mul_pair(&k0, &k1, &z0, &z1, tm0, tm1);
    let r0 = AuthenticatedScalar::from_parts(z0, m0, k0);
    let r1 = AuthenticatedScalar::from_parts(z1, m1, k1);
    (r0, r1)
}


/// Multiply a point pair by a scalar pair on both parties, consuming one
/// Beaver triple when both are Shared: one scalar open and one point
/// open, and the joint results satisfy open(c·P) = open(c)·open(P).
pub fn mul_point_pair(
    p0: &MpcRistrettoPoint,
    p1: &MpcRistrettoPoint,
    s0: &MpcScalar,
    s1: &MpcScalar,
    t0: &(Scalar, Scalar, Scalar),
    t1: &(Scalar, Scalar, Scalar),
) -> (r: (MpcRistrettoPoint, MpcRistrettoPoint))
    requires
        p0.wf(),
        p1.wf(),
        s0.wf(),
        s1.wf(),
        consistent(p0@, p1@),
        consistent(s0@, s1@),
        p0@.vis == Visibility::Shared && s0@.vis == Visibility::Shared ==> triple_consistent(
            *t0,
            *t1,
        ),
    ensures
        r.0.wf(),
        r.1.wf(),
        consistent(r.0@, r.1@),
        r.0@.vis == Visibility::spec_min(p0@.vis, s0@.vis),
        joint_val(r.0@, r.1@) == fmul(joint_val(s0@, s1@), joint_val(p0@, p1@)),
{
    if p0.is_shared() && s0.is_shared() {
        let (d0, e0) = p0.beaver_masked(s0, &t0.0, &t0.1);
        let (d1, e1) = p1.beaver_masked(s1, &t1.0, &t1.1);
        let r0 = match p0.mul(s0, t0, &d1, &e1) {
            Ok(v) => v,
            Err(_) => unreached(),
        };
        let r1 = match p1.mul(s1, t1, &d0, &e0) {
            Ok(v) => v,
            Err(_) => unreached(),
        };
        proof {
            lemma_beaver_mul(
                s0@.val,
                s1@.val,
                p0@.val,
                p1@.val,
                scalar_val(t0.0),
                scalar_val(t1.0),
                scalar_val(t0.1),
                scalar_val(t1.1),
                scalar_val(t0.2),
                scalar_val(t1.2),
            );
        }
        (r0, r1)
    } else {
        let r0 = match p0.mul_public(s0) {
            Ok(v) => v,
            Err(_) => unreached(),
        };
        let r1 = match p1.mul_public(s1) {
            Ok(v) => v,
            Err(_) => unreached(),
        };
        proof {
            if p0@.vis == Visibility::Shared {
                lemma_mul_public_shared(p0@.val, p1@.val, s0@.val);
            } else if s0@.vis == Visibility::Shared {
                lemma_mul_public_shared(s0@.val, s1@.val, p0@.val);
            }
            lemma_field_ops_in_field(s0@.val, p0@.val);
            lemma_field_ops_in_field(s1@.val, p1@.val);
        }
        (r0, r1)
    }
}


/// Multiply an authenticated Shared point by an authenticated Shared
/// scalar: one Beaver multiplication for the value and a second against
/// the shared MAC key for the product's MAC shares.
pub fn authenticated_mul_point_pair(
    p0: &AuthenticatedRistretto,
    p1: &AuthenticatedRistretto,
    s0: &AuthenticatedScalar,
    s1: &AuthenticatedScalar,
    tv0: &(Scalar, Scalar, Scalar),
    tv1: &(Scalar, Scalar, Scalar),
    tm0: &(Scalar, Scalar, Scalar),
    tm1: &(Scalar, Scalar, Scalar),
) -> (r: (AuthenticatedRistretto, AuthenticatedRistretto))
    requires
        p0.wf(),
        p1.wf(),
        s0.wf(),
        s1.wf(),
        auth_point_consistent(p0@, p1@),
        auth_consistent(s0@, s1@),
        p0@.value.vis == Visibility::Shared,
        s0@.value.vis == Visibility::Shared,
        s0@.key == p0@.key,
        s1@.key == p1@.key,
        triple_consistent(*tv0, *tv1),
        triple_consistent(*tm0, *tm1),
    ensures
        r.0.wf(),
        r.1.wf(),
        auth_point_consistent(r.0@, r.1@),
        r.0@.value.vis == Visibility::Shared,
        r.0@.key == p0@.key,
        r.1@.key == p1@.key,
        joint_val(r.0@.value, r.1@.value) == fmul(
            joint_val(s0@.value, s1@.value),
            joint_val(p0@.value, p1@.value),
        ),
{
    let pv0 = p0.value();
    let pv1 = p1.value();
    let sv0 = s0.value();
    let sv1 = s1.value();
    let (z0, z1) = mul_point_pair(&pv0, &pv1, &sv0, &sv1, tv0, tv1);
    let k0 = p0.key_share();
    let k1 = p1.key_share();
    let (m0, m1) = mul_point_pair(&z0, &z1, &k0, &k1, tm0, tm1);
    let r0 = AuthenticatedRistretto::from_parts(z0, m0, k0);
    let r1 = AuthenticatedRistretto::from_parts(z1, m1, k1);
    (r0, r1)
}


/// Run commit-and-open on a Shared point pair, honestly.
pub fn commit_and_open_point_pair(x0: &MpcRistrettoPoint, x1: &MpcRistrettoPoint) -> (r: (
    MpcRistrettoPoint,
    MpcRistrettoPoint,
))
    requires
        x0.wf(),
        x1.wf(),
        consistent(x0@, x1@),
        x0@.vis == Visibility::Shared,
    ensures
        r.0.wf(),
        r.1.wf(),
        consistent(r.0@, r.1@),
        r.0@.vis == Visibility::Public,
        r.0@.val == joint_val(x0@, x1@),
        r.1@.val == joint_val(x0@, x1@),
{
    let c0 = RistrettoPointCommitment::commit(&x0.value());
    let c1 = RistrettoPointCommitment::commit(&x1.value());
    let r0 = match x0.commit_and_open(&c1.get_commitment(), &c1.get_blinding(), &c1.get_value()) {
        Ok(v) => v,
        Err(_) => unreached(),
    };
    let r1 = match x1.commit_and_open(&c0.get_commitment(), &c0.get_blinding(), &c0.get_value()) {
        Ok(v) => v,
        Err(_) => unreached(),
    };
    (r0, r1)
}



/// The invariants tying the two parties' authenticated handles together:
/// consistent value, MAC and key pairs, Shared MACs and keys, and the MAC
/// invariant that the reconstructed MAC equals α·v.
pub open spec fn auth_consistent(x0: AuthView, x1: AuthView) -> bool {
    &&& consistent(x0.value, x1.value)
    &&& consistent(x0.mac, x1.mac)
    &&& consistent(x0.key, x1.key)
    &&& x0.mac.vis == Visibility::Shared
    &&& x0.key.vis == Visibility::Shared
    &&& fadd(x0.mac.val, x1.mac.val) == fmul(
        fadd(x0.key.val, x1.key.val),
        joint_val(x0.value, x1.value),
    )
}

/// The two parties' MAC-check shares for an opened value w sum to the
/// difference between the reconstructed MAC and α·w.
pub proof fn lemma_mac_check(m0: int, m1: int, k0: int, k1: int, w: int)
    ensures
        fadd(fsub(m0, fmul(k0, w)), fsub(m1, fmul(k1, w))) == fsub(
            fadd(m0, m1),
            fmul(fadd(k0, k1), w),
        ),
{
    lemma_fmul_cong(k0, w);
    lemma_fmul_cong(k1, w);
    lemma_cong_sub(m0, fmul(k0, w), m0, k0 * w);
    lemma_cong_sub(m1, fmul(k1, w), m1, k1 * w);
    lemma_fsub_cong(m0, fmul(k0, w));
    lemma_fsub_cong(m1, fmul(k1, w));
    lemma_fadd_cong_both(
        fsub(m0, fmul(k0, w)),
        fsub(m1, fmul(k1, w)),
        m0 - k0 * w,
        m1 - k1 * w,
    );
    lemma_fadd_cong(m0, m1);
    lemma_fadd_cong(k0, k1);
    lemma_fmul_cong_both(fadd(k0, k1), w, k0 + k1, w);
    lemma_cong_sub(fadd(m0, m1), fmul(fadd(k0, k1), w), m0 + m1, (k0 + k1) * w);
    lemma_fsub_cong(fadd(m0, m1), fmul(fadd(k0, k1), w));
    assert((k0 + k1) * w == k0 * w + k1 * w) by (nonlinear_arith);
    lemma_field_ops_in_field(fsub(m0, fmul(k0, w)), fsub(m1, fmul(k1, w)));
    lemma_field_ops_in_field(fadd(m0, m1), fmul(fadd(k0, k1), w));
    lemma_cong_in_field(
        fadd(fsub(m0, fmul(k0, w)), fsub(m1, fmul(k1, w))),
        fsub(fadd(m0, m1), fmul(fadd(k0, k1), w)),
    );
}

/// Completeness of the MAC check: when both parties follow the protocol
/// and open the true joint value, the check shares sum to zero.
pub proof fn lemma_mac_check_accepts(m0: int, m1: int, k0: int, k1: int, w: int)
    requires
        fadd(m0, m1) == fmul(fadd(k0, k1), w),
    ensures
        fadd(fsub(m0, fmul(k0, w)), fsub(m1, fmul(k1, w))) == 0,
{
    lemma_mac_check(m0, m1, k0, k1, w);
    lemma_small_mod(0nat, group_order() as nat);
}

/// Soundness of the MAC check against a shifted opening: a revealed value
/// w whose MAC α·w differs from the reconstructed MAC mod ℓ makes the
/// check shares sum to a nonzero value, so the honest party rejects.
/// (When α·w happens to be congruent to the MAC — e.g. for the zero MAC
/// key — the shift is not detected; detection of an arbitrary shift holds
/// with overwhelming probability over a uniform key.)
pub proof fn lemma_mac_check_rejects(m0: int, m1: int, k0: int, k1: int, w: int)
    requires
        fmul(fadd(k0, k1), w) != fadd(m0, m1),
    ensures
        fadd(fsub(m0, fmul(k0, w)), fsub(m1, fmul(k1, w))) != 0,
{
    lemma_mac_check(m0, m1, k0, k1, w);
    let mm = fadd(m0, m1);
    let kw = fmul(fadd(k0, k1), w);
    lemma_field_ops_in_field(m0, m1);
    lemma_field_ops_in_field(fadd(k0, k1), w);
    lemma_small_nonzero_mod(mm - kw);
}

/// Create an authenticated sharing of a Private value: share the value,
/// then derive the MAC shares with one Beaver multiplication by the
/// shared MAC key.
pub fn authenticate_pair(
    v: &MpcScalar,
    key0: &MpcScalar,
    key1: &MpcScalar,
    t0: &(Scalar, Scalar, Scalar),
    t1: &(Scalar, Scalar, Scalar),
) -> (r: (AuthenticatedScalar, AuthenticatedScalar))
    requires
        v.wf(),
        v@.vis == Visibility::Private,
        key0.wf(),
        key1.wf(),
        consistent(key0@, key1@),
        key0@.vis == Visibility::Shared,
        triple_consistent(*t0, *t1),
    ensures
        r.0.wf(),
        r.1.wf(),
        auth_consistent(r.0@, r.1@),
        r.0@.value.vis == Visibility::Shared,
        r.0@.key == key0@,
        r.1@.key == key1@,
        joint_val(r.0@.value, r.1@.value) == v@.val,
{
    let (v0, v1) = share_scalar(v);
    let (m0, m1) = mul_pair(key0, key1, &v0, &v1, t0, t1);
    let r0 = AuthenticatedScalar::from_parts(v0, m0, *key0);
    let r1 = AuthenticatedScalar::from_parts(v1, m1, *key1);
    (r0, r1)
}

/// The MAC-checked open, run honestly on both parties: the value shares
/// cross, each derives and commits to its check share, the commitments
/// and openings cross, and both checks pass, yielding the joint value as
/// Public on both sides.
pub fn open_authenticated_pair(x0: &AuthenticatedScalar, x1: &AuthenticatedScalar) -> (r: (
    MpcScalar,
    MpcScalar,
))
    requires
        x0.wf(),
        x1.wf(),
        auth_consistent(x0@, x1@),
        x0@.value.vis == Visibility::Shared,
    ensures
        r.0.wf(),
        r.1.wf(),
        consistent(r.0@, r.1@),
        r.0@.vis == Visibility::Public,
        r.0@.val == joint_val(x0@.value, x1@.value),
        r.1@.val == joint_val(x0@.value, x1@.value),
{
    let v0 = x0.value().value();
    let v1 = x1.value().value();
    let opened0 = crate::curve::scalar_add(&v0, &v1);
    let opened1 = crate::curve::scalar_add(&v1, &v0);
    let check0 = x0.mac_check_share(&opened0);
    let check1 = x1.mac_check_share(&opened1);
    let c0 = RistrettoCommitment::commit(&check0);
    let c1 = RistrettoCommitment::commit(&check1);
    proof {
        lemma_mac_check_accepts(
            x0@.mac.val,
            x1@.mac.val,
            x0@.key.val,
            x1@.key.val,
            joint_val(x0@.value, x1@.value),
        );
    }
    let r0 = match x0.open_authenticated(
        &v1,
        &c1.get_commitment(),
        &c1.get_blinding(),
        &c1.get_value(),
    ) {
        Ok(v) => v,
        Err(_) => unreached(),
    };
    let r1 = match x1.open_authenticated(
        &v0,
        &c0.get_commitment(),
        &c0.get_blinding(),
        &c0.get_value(),
    ) {
        Ok(v) => v,
        Err(_) => unreached(),
    };
    (r0, r1)
}



/// The invariants tying the two parties' authenticated point handles
/// together, with the MAC invariant that the reconstructed MAC is α·P.
pub open spec fn auth_point_consistent(x0: AuthPointView, x1: AuthPointView) -> bool {
    &&& consistent(x0.value, x1.value)
    &&& consistent(x0.mac, x1.mac)
    &&& consistent(x0.key, x1.key)
    &&& x0.mac.vis == Visibility::Shared
    &&& x0.key.vis == Visibility::Shared
    &&& fadd(x0.mac.val, x1.mac.val) == fmul(
        fadd(x0.key.val, x1.key.val),
        joint_val(x0.value, x1.value),
    )
}

/// Create an authenticated sharing of a Private point: share the point,
/// then derive the MAC shares with one Beaver multiplication by the
/// shared MAC key.
pub fn authenticate_point_pair(
    p: &MpcRistrettoPoint,
    key0: &MpcScalar,
    key1: &MpcScalar,
    t0: &(Scalar, Scalar, Scalar),
    t1: &(Scalar, Scalar, Scalar),
) -> (r: (AuthenticatedRistretto, AuthenticatedRistretto))
    requires
        p.wf(),
        p@.vis == Visibility::Private,
        key0.wf(),
        key1.wf(),
        consistent(key0@, key1@),
        key0@.vis == Visibility::Shared,
        triple_consistent(*t0, *t1),
    ensures
        r.0.wf(),
        r.1.wf(),
        auth_point_consistent(r.0@, r.1@),
        r.0@.value.vis == Visibility::Shared,
        joint_val(r.0@.value, r.1@.value) == p@.val,
{
    let (p0, p1) = share_point(p);
    let (m0, m1) = mul_point_pair(&p0, &p1, key0, key1, t0, t1);
    let r0 = AuthenticatedRistretto::from_parts(p0, m0, *key0);
    let r1 = AuthenticatedRistretto::from_parts(p1, m1, *key1);
    (r0, r1)
}

/// The MAC-checked open of an authenticated point pair, run honestly on
/// both parties: both checks pass and both parties obtain the joint
/// point as Public.
pub fn open_authenticated_point_pair(
    x0: &AuthenticatedRistretto,
    x1: &AuthenticatedRistretto,
) -> (r: (MpcRistrettoPoint, MpcRistrettoPoint))
    requires
        x0.wf(),
        x1.wf(),
        auth_point_consistent(x0@, x1@),
        x0@.value.vis == Visibility::Shared,
    ensures
        r.0.wf(),
        r.1.wf(),
        consistent(r.0@, r.1@),
        r.0@.vis == Visibility::Public,
        r.0@.val == joint_val(x0@.value, x1@.value),
        r.1@.val == joint_val(x0@.value, x1@.value),
{
    let v0 = x0.value().value();
    let v1 = x1.value().value();
    let opened0 = crate::curve::point_add(&v0, &v1);
    let opened1 = crate::curve::point_add(&v1, &v0);
    let check0 = x0.mac_check_share(&opened0);
    let check1 = x1.mac_check_share(&opened1);
    let c0 = RistrettoPointCommitment::commit(&check0);
    let c1 = RistrettoPointCommitment::commit(&check1);
    proof {
        lemma_mac_check_accepts(
            x0@.mac.val,
            x1@.mac.val,
            x0@.key.val,
            x1@.key.val,
            joint_val(x0@.value, x1@.value),
        );
    }
    let r0 = match x0.open_authenticated(
        &v1,
        &c1.get_commitment(),
        &c1.get_blinding(),
        &c1.get_value(),
    ) {
        Ok(v) => v,
        Err(_) => unreached(),
    };
    let r1 = match x1.open_authenticated(
        &v0,
        &c0.get_commitment(),
        &c0.get_blinding(),
        &c0.get_value(),
    ) {
        Ok(v) => v,
        Err(_) => unreached(),
    };
    (r0, r1)
}


} // verus!
