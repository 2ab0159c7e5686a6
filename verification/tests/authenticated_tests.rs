//! Tests of authenticated shared values: the MAC-checked open accepts
//! honest executions and rejects a tampered value share.

use curve25519_dalek::constants::RISTRETTO_BASEPOINT_POINT;
use curve25519_dalek::scalar::Scalar;
use mpc_ristretto::beaver::PartyIDBeaverSource;
use mpc_ristretto::commitment::RistrettoPointCommitment;
use mpc_ristretto::mpc_ristretto::MpcRistrettoPoint;
use mpc_ristretto::commitment::RistrettoCommitment;
use mpc_ristretto::error::MpcError;
use mpc_ristretto::mpc_scalar::MpcScalar;
use mpc_ristretto::two_party;
use mpc_ristretto::Visibility;

fn triples() -> ((Scalar, Scalar, Scalar), (Scalar, Scalar, Scalar)) {
    (PartyIDBeaverSource::new(0).triplet(), PartyIDBeaverSource::new(1).triplet())
}

/// The session MAC key [α], shared once by party 0.
fn mac_key() -> (MpcScalar, MpcScalar) {
    two_party::share_scalar(&MpcScalar::from_private_u64(15, 0))
}

/// The checked open of an honestly authenticated value accepts and
/// returns the value as Public on both parties.
#[test]
fn test_open_authenticated() {
    let (key0, key1) = mac_key();
    let (t0, t1) = triples();
    let (a0, a1) = two_party::authenticate_pair(
        &MpcScalar::from_private_u64(42, 0),
        &key0,
        &key1,
        &t0,
        &t1,
    );
    let (o0, o1) = two_party::open_authenticated_pair(&a0, &a1);
    assert_eq!(o0.value(), Scalar::from(42u64));
    assert_eq!(o1.value(), Scalar::from(42u64));
    assert_eq!(o0.visibility(), Visibility::Public);
}

/// A unilateral shift of party 1's value share is rejected by party 0's
/// MAC check with an authentication error.
#[test]
fn test_open_authenticated_tampered() {
    let (key0, key1) = mac_key();
    let (t0, t1) = triples();
    let (a0, a1) = two_party::authenticate_pair(
        &MpcScalar::from_private_u64(42, 0),
        &key0,
        &key1,
        &t0,
        &t1,
    );
    // party 1 shifts its value share by one
    let tampered_share = a1.value().value() + Scalar::ONE;
    let opened = a0.value().value() + tampered_share;
    // both parties derive their check shares against the tampered opening
    let check1 = a1.mac_check_share(&opened);
    let c1 = RistrettoCommitment::commit(&check1);
    let res = a0.open_authenticated(
        &tampered_share,
        &c1.get_commitment(),
        &c1.get_blinding(),
        &c1.get_value(),
    );
    assert!(matches!(res, Err(MpcError::AuthenticationError)));
}

/// A forged check share that does not match its commitment is also an
/// authentication failure.
#[test]
fn test_open_authenticated_bad_commitment() {
    let (key0, key1) = mac_key();
    let (t0, t1) = triples();
    let (a0, a1) = two_party::authenticate_pair(
        &MpcScalar::from_private_u64(7, 0),
        &key0,
        &key1,
        &t0,
        &t1,
    );
    let peer_share = a1.value().value();
    let opened = a0.value().value() + peer_share;
    let check1 = a1.mac_check_share(&opened);
    let c1 = RistrettoCommitment::commit(&check1);
    let res = a0.open_authenticated(
        &peer_share,
        &c1.get_commitment(),
        &c1.get_blinding(),
        &(c1.get_value() + Scalar::ONE),
    );
    assert!(matches!(res, Err(MpcError::AuthenticationError)));
}

/// Arithmetic preserves the MAC: the sum, a folded public term, a public
/// product and a negation all still pass the checked open.
#[test]
fn test_authenticated_arithmetic() {
    let (key0, key1) = mac_key();
    let (t0, t1) = triples();
    let (a0, a1) =
        two_party::authenticate_pair(&MpcScalar::from_private_u64(20, 0), &key0, &key1, &t0, &t1);
    let (b0, b1) =
        two_party::authenticate_pair(&MpcScalar::from_private_u64(22, 1), &key0, &key1, &t0, &t1);

    let (s0, s1) = (a0.add(&b0), a1.add(&b1));
    let (o0, _) = two_party::open_authenticated_pair(&s0, &s1);
    assert_eq!(o0.value(), Scalar::from(42u64));

    let p0 = s0.add_public(&MpcScalar::from_public_u64(8, 0)).unwrap();
    let p1 = s1.add_public(&MpcScalar::from_public_u64(8, 1)).unwrap();
    let (o0, _) = two_party::open_authenticated_pair(&p0, &p1);
    assert_eq!(o0.value(), Scalar::from(50u64));

    let m0 = p0.mul_public(&MpcScalar::from_public_u64(2, 0)).unwrap();
    let m1 = p1.mul_public(&MpcScalar::from_public_u64(2, 1)).unwrap();
    let (o0, _) = two_party::open_authenticated_pair(&m0, &m1);
    assert_eq!(o0.value(), Scalar::from(100u64));

    let (n0, n1) = (m0.neg(), m1.neg());
    let (o0, _) = two_party::open_authenticated_pair(&n0, &n1);
    assert_eq!(o0.value(), -Scalar::from(100u64));

    let (d0, d1) = (m0.sub(&s0), m1.sub(&s1));
    let (o0, _) = two_party::open_authenticated_pair(&d0, &d1);
    assert_eq!(o0.value(), Scalar::from(58u64));
}

/// The checked open demands a Shared value, and adding or multiplying a
/// non-Public scalar through the public-operand paths is rejected.
#[test]
fn test_authenticated_visibility_errors() {
    let (key0, key1) = mac_key();
    let (t0, t1) = triples();
    let (a0, _a1) =
        two_party::authenticate_pair(&MpcScalar::from_private_u64(1, 0), &key0, &key1, &t0, &t1);
    let private = MpcScalar::from_private_u64(3, 0);
    assert!(matches!(a0.add_public(&private), Err(MpcError::VisibilityError)));
    assert!(matches!(a0.mul_public(&private), Err(MpcError::VisibilityError)));
}

/// The checked open of an honestly authenticated point accepts and
/// returns the point; a shifted point share is rejected.
#[test]
fn test_open_authenticated_point() {
    let (key0, key1) = mac_key();
    let (t0, t1) = triples();
    let p = MpcRistrettoPoint::from_private_u64(42, 0);
    let (a0, a1) = two_party::authenticate_point_pair(&p, &key0, &key1, &t0, &t1);
    let (o0, o1) = two_party::open_authenticated_point_pair(&a0, &a1);
    assert_eq!(o0.value(), MpcRistrettoPoint::base_point_mul_u64(42));
    assert_eq!(o1.value(), MpcRistrettoPoint::base_point_mul_u64(42));

    // a shifted point share fails party 0's MAC check
    let tampered = a1.value().value() + RISTRETTO_BASEPOINT_POINT;
    let opened = a0.value().value() + tampered;
    let check1 = a1.mac_check_share(&opened);
    let c1 = RistrettoPointCommitment::commit(&check1);
    let res = a0.open_authenticated(
        &tampered,
        &c1.get_commitment(),
        &c1.get_blinding(),
        &c1.get_value(),
    );
    assert!(matches!(res, Err(MpcError::AuthenticationError)));

    // authenticated point arithmetic preserves the MAC
    let (b0, b1) = two_party::authenticate_point_pair(
        &MpcRistrettoPoint::from_private_u64(8, 1),
        &key0,
        &key1,
        &t0,
        &t1,
    );
    let (s0, s1) = (a0.add(&b0), a1.add(&b1));
    let (o0, _) = two_party::open_authenticated_point_pair(&s0, &s1);
    assert_eq!(o0.value(), MpcRistrettoPoint::base_point_mul_u64(50));
    let (d0, d1) = (s0.sub(&b0), s1.sub(&b1));
    let (o0, _) = two_party::open_authenticated_point_pair(&d0, &d1);
    assert_eq!(o0.value(), MpcRistrettoPoint::base_point_mul_u64(42));
    let two0 = MpcScalar::from_public_u64(2, 0);
    let two1 = MpcScalar::from_public_u64(2, 1);
    let (m0, m1) = (d0.mul_public(&two0).unwrap(), d1.mul_public(&two1).unwrap());
    let (o0, _) = two_party::open_authenticated_point_pair(&m0, &m1);
    assert_eq!(o0.value(), MpcRistrettoPoint::base_point_mul_u64(84));
    let (n0, n1) = (m0.neg(), m1.neg());
    let (o0, _) = two_party::open_authenticated_point_pair(&n0, &n1);
    assert_eq!(o0.value(), -MpcRistrettoPoint::base_point_mul_u64(84));
}

/// The authenticated Beaver product of two authenticated sharings opens,
/// MAC-checked, to the product; the same for a point times a scalar.
#[test]
fn test_authenticated_mul() {
    let (key0, key1) = mac_key();
    let (t0, t1) = triples();
    let (a0, a1) =
        two_party::authenticate_pair(&MpcScalar::from_private_u64(10, 0), &key0, &key1, &t0, &t1);
    let (b0, b1) =
        two_party::authenticate_pair(&MpcScalar::from_private_u64(6, 1), &key0, &key1, &t0, &t1);
    let (p0, p1) = two_party::authenticated_mul_pair(&a0, &a1, &b0, &b1, &t0, &t1, &t0, &t1);
    let (o0, o1) = two_party::open_authenticated_pair(&p0, &p1);
    assert_eq!(o0.value(), Scalar::from(60u64));
    assert_eq!(o1.value(), Scalar::from(60u64));

    let (q0, q1) = two_party::authenticate_point_pair(
        &MpcRistrettoPoint::from_private_u64(7, 0),
        &key0,
        &key1,
        &t0,
        &t1,
    );
    let (r0, r1) = two_party::authenticated_mul_point_pair(&q0, &q1, &a0, &a1, &t0, &t1, &t0, &t1);
    let (o0, o1) = two_party::open_authenticated_point_pair(&r0, &r1);
    assert_eq!(o0.value(), MpcRistrettoPoint::base_point_mul_u64(70));
    assert_eq!(o1.value(), MpcRistrettoPoint::base_point_mul_u64(70));
}
