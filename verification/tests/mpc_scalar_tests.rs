//! Tests of the shared-scalar engine: sharing, opening, batching, error
//! cases and the visibility lattice.

use curve25519_dalek::scalar::Scalar;
use mpc_ristretto::beaver::{PartyIDBeaverSource, SharedValueSource};
use mpc_ristretto::error::MpcError;
use mpc_ristretto::mpc_scalar::{scalar_to_u64, MpcScalar};
use mpc_ristretto::two_party;
use mpc_ristretto::Visibility;

/// Sharing a value and opening the sharing returns the value, Public on
/// both parties.
#[test]
fn test_open_value() {
    let private = MpcScalar::from_private_u64(42, 0);
    let (s0, s1) = two_party::share_scalar(&private);
    assert_eq!(s0.visibility(), Visibility::Shared);
    assert_eq!(s1.visibility(), Visibility::Shared);
    let (o0, o1) = two_party::open_pair(&s0, &s1);
    assert_eq!(o0.value(), Scalar::from(42u64));
    assert_eq!(o1.value(), Scalar::from(42u64));
    assert_eq!(o0.visibility(), Visibility::Public);
    assert!(o0.eq(&MpcScalar::from_public_u64(42, 0)));
}

/// The peer's half of sharing: party 0 sends, party 1 receives, and the
/// opened sharing is the sent value.
#[test]
fn test_receive_value() {
    let (share0, msg) = MpcScalar::from_private_u64(10, 0).share_secret().unwrap();
    let share1 = MpcScalar::receive_value(msg, 1);
    let (o0, o1) = two_party::open_pair(&share0, &share1);
    assert_eq!(o0.value(), Scalar::from(10u64));
    assert_eq!(o1.value(), Scalar::from(10u64));
}

/// Subtraction across visibilities: 10 - 6 = 4 shared-shared,
/// 15 - 10 = 5 public-shared, 15 - 15 = 0 public-public.
#[test]
fn test_sub() {
    let (x0, x1) = two_party::share_scalar(&MpcScalar::from_private_u64(10, 0));
    let (y0, y1) = two_party::share_scalar(&MpcScalar::from_private_u64(6, 1));
    let p0 = MpcScalar::from_public_u64(15, 0);
    let p1 = MpcScalar::from_public_u64(15, 1);

    let (d0, d1) = two_party::sub_pair(&x0, &x1, &y0, &y1);
    let (o0, _) = two_party::open_pair(&d0, &d1);
    assert_eq!(o0.value(), Scalar::from(4u64));

    let (d0, d1) = two_party::sub_pair(&p0, &p1, &x0, &x1);
    let (o0, _) = two_party::open_pair(&d0, &d1);
    assert_eq!(o0.value(), Scalar::from(5u64));

    let (d0, d1) = two_party::sub_pair(&p0, &p1, &p0, &p1);
    let (o0, _) = two_party::open_pair(&d0, &d1);
    assert_eq!(o0.value(), Scalar::from(0u64));
}

/// Batch sharing then batch opening returns the input values, in one
/// message each way.
#[test]
fn test_open_batch() {
    let values: Vec<MpcScalar> = vec![1u64, 2, 3]
        .into_iter()
        .map(|v| MpcScalar::from_private_u64(v, 0))
        .collect();
    let (s0, s1) = two_party::batch_share_pair(&values);
    let (o0, o1) = two_party::batch_open_pair(&s0, &s1);
    for (i, v) in [1u64, 2, 3].iter().enumerate() {
        assert_eq!(o0[i].value(), Scalar::from(*v));
        assert_eq!(o1[i].value(), Scalar::from(*v));
    }
}

/// Batch commit-and-open of an honestly shared batch returns the
/// input values on both parties.
#[test]
fn test_commit_and_open_batch() {
    let values: Vec<MpcScalar> = vec![1u64, 2, 3]
        .into_iter()
        .map(|v| MpcScalar::from_private_u64(v, 0))
        .collect();
    let (s0, s1) = two_party::batch_share_pair(&values);
    let (o0, o1) = two_party::batch_commit_and_open_pair(&s0, &s1);
    for (i, v) in [1u64, 2, 3].iter().enumerate() {
        assert_eq!(o0[i].value(), Scalar::from(*v));
        assert_eq!(o1[i].value(), Scalar::from(*v));
    }
}

/// Summing shared values is fully local; 1 + 2 + 3 + 4 + 5 + 6 = 21.
#[test]
fn test_sum() {
    let mut xs0 = Vec::new();
    let mut xs1 = Vec::new();
    for v in [1u64, 2, 3] {
        let (s0, s1) = two_party::share_scalar(&MpcScalar::from_private_u64(v, 0));
        xs0.push(s0);
        xs1.push(s1);
    }
    for v in [4u64, 5, 6] {
        let (s0, s1) = two_party::share_scalar(&MpcScalar::from_private_u64(v, 1));
        xs0.push(s0);
        xs1.push(s1);
    }
    let (sum0, sum1) = two_party::sum_pair(&xs0, &xs1);
    let (o0, o1) = two_party::open_pair(&sum0, &sum1);
    assert_eq!(o0.value(), Scalar::from(21u64));
    assert_eq!(o1.value(), Scalar::from(21u64));
}

/// The product over a series of shared values; 1·2·3·4·5·6 = 720.
#[test]
fn test_product() {
    let mut xs0 = Vec::new();
    let mut xs1 = Vec::new();
    let mut t0s = Vec::new();
    let mut t1s = Vec::new();
    for v in [1u64, 2, 3] {
        let (s0, s1) = two_party::share_scalar(&MpcScalar::from_private_u64(v, 0));
        xs0.push(s0);
        xs1.push(s1);
    }
    for v in [4u64, 5, 6] {
        let (s0, s1) = two_party::share_scalar(&MpcScalar::from_private_u64(v, 1));
        xs0.push(s0);
        xs1.push(s1);
    }
    for _ in 0..6 {
        t0s.push(PartyIDBeaverSource::new(0).triplet());
        t1s.push(PartyIDBeaverSource::new(1).triplet());
    }
    let (p0, p1) = two_party::product_pair(&xs0, &xs1, &t0s, &t1s);
    let (o0, o1) = two_party::open_pair(&p0, &p1);
    assert_eq!(o0.value(), Scalar::from(720u64));
    assert_eq!(o1.value(), Scalar::from(720u64));
}

/// Opening a Private value is a visibility error; a programmer bug, not
/// a protocol step.
#[test]
fn test_open_private_rejected() {
    let private = MpcScalar::from_private_u64(5, 0);
    let res = private.open(&Scalar::ZERO);
    assert!(matches!(res, Err(MpcError::VisibilityError)));
}

/// Sharing a value that is not Private is not defined and is rejected.
#[test]
fn test_share_non_private_rejected() {
    let public = MpcScalar::from_public_u64(5, 0);
    assert!(matches!(public.share_secret(), Err(MpcError::VisibilityError)));
    let (s0, _) = two_party::share_scalar(&MpcScalar::from_private_u64(5, 0));
    assert!(matches!(s0.share_secret(), Err(MpcError::VisibilityError)));
}

/// Committing a value that is not Shared is a visibility error.
#[test]
fn test_commit_non_shared_rejected() {
    let public = MpcScalar::from_public_u64(5, 0);
    let c = mpc_ristretto::commitment::RistrettoCommitment::commit(&Scalar::from(5u64));
    let res = public.commit_and_open(&c.get_commitment(), &c.get_blinding(), &c.get_value());
    assert!(matches!(res, Err(MpcError::VisibilityError)));
}

/// A Private times a Public factor is a well-defined local product that
/// stays Private; a Private operand against a Shared one is rejected
/// rather than silently mixed with shares.
#[test]
fn test_mul_private() {
    let private = MpcScalar::from_private_u64(5, 0);
    let public = MpcScalar::from_public_u64(3, 0);
    let local = private.mul_public(&public).unwrap();
    assert_eq!(local.value(), Scalar::from(15u64));
    assert_eq!(local.visibility(), Visibility::Private);

    let shared = MpcScalar::from_u64_with_visibility(2, Visibility::Shared, 0);
    assert!(matches!(private.mul_public(&shared), Err(MpcError::VisibilityError)));
}

/// The Beaver multiplication demands Shared operands.
#[test]
fn test_beaver_mul_non_shared_rejected() {
    let p = MpcScalar::from_public_u64(5, 0);
    let t = PartyIDBeaverSource::new(0).triplet();
    let res = p.mul(&p, &t, &Scalar::ZERO, &Scalar::ZERO);
    assert!(matches!(res, Err(MpcError::VisibilityError)));
}

/// The visibility of every operator output is the minimum of its
/// operands' under Private < Shared < Public.
#[test]
fn test_visibility_lattice() {
    let private = MpcScalar::from_private_u64(1, 0);
    let shared = MpcScalar::from_u64_with_visibility(1, Visibility::Shared, 0);
    let public = MpcScalar::from_public_u64(1, 0);

    assert_eq!(public.add(&public).visibility(), Visibility::Public);
    assert_eq!(public.add(&shared).visibility(), Visibility::Shared);
    assert_eq!(shared.add(&public).visibility(), Visibility::Shared);
    assert_eq!(shared.add(&shared).visibility(), Visibility::Shared);
    assert_eq!(private.add(&public).visibility(), Visibility::Private);
    assert_eq!(private.add(&shared).visibility(), Visibility::Private);
    assert_eq!(shared.sub(&public).visibility(), Visibility::Shared);
    assert_eq!(private.neg().visibility(), Visibility::Private);
    assert_eq!(shared.neg().visibility(), Visibility::Shared);
    assert_eq!(public.mul_public(&shared).unwrap().visibility(), Visibility::Shared);
    assert_eq!(public.mul_public(&public).unwrap().visibility(), Visibility::Public);

    assert_eq!(
        Visibility::min_visibility_two(Visibility::Private, Visibility::Public),
        Visibility::Private
    );
    assert_eq!(
        Visibility::min_visibility_two(Visibility::Public, Visibility::Shared),
        Visibility::Shared
    );
    assert_eq!(
        Visibility::min_visibility_two(Visibility::Public, Visibility::Public),
        Visibility::Public
    );
}

/// The deterministic test source splits the fixed triple a = 2, b = 3,
/// c = 6 between the parties.
#[test]
fn test_party_id_beaver_source() {
    let mut src0 = PartyIDBeaverSource::new(0);
    let mut src1 = PartyIDBeaverSource::new(1);
    let t0 = src0.next_triplet();
    let t1 = src1.next_triplet();
    assert_eq!(t0.0 + t1.0, Scalar::from(2u64));
    assert_eq!(t0.1 + t1.1, Scalar::from(3u64));
    assert_eq!(t0.2 + t1.2, Scalar::from(6u64));
    assert_eq!(src0.next_shared_bit(), Scalar::from(0u64));
    assert_eq!(src1.next_shared_bit(), Scalar::from(1u64));
    assert_eq!(src0.next_shared_value(), Scalar::from(0u64));
    let (inv0, inv1) = src0.next_shared_inverse_pair();
    assert_eq!(inv0, Scalar::ONE);
    assert_eq!(inv1, Scalar::ONE);
}

/// A scalar built from a u64 carries exactly that field element, and the
/// local arithmetic is the field arithmetic: 2 + 3 = 5, 2·3 = 6, and
/// negation inverts addition.
#[test]
fn test_local_arithmetic_exact() {
    let two = MpcScalar::from_public_u64(2, 0);
    let three = MpcScalar::from_public_u64(3, 0);
    assert_eq!(two.add(&three).value(), Scalar::from(5u64));
    assert_eq!(two.sub(&three).value(), -Scalar::ONE);
    assert_eq!(two.mul_public(&three).unwrap().value(), Scalar::from(6u64));
    assert_eq!(two.neg().add(&two).value(), Scalar::ZERO);
    let from_scalar = MpcScalar::from_public_scalar(Scalar::from(7u64), 1);
    assert_eq!(from_scalar.value(), Scalar::from(7u64));
    assert_eq!(from_scalar.party_id(), 1);
    assert!(MpcScalar::from_private_u64(9, 0).is_private());
    assert!(!MpcScalar::from_private_u64(9, 0).is_public());
    assert!(MpcScalar::from_public_u64(9, 0).to_scalar() == Scalar::from(9u64));
}

/// The minimum visibility of a sequence, Public for the empty one.
#[test]
fn test_min_visibility_seq() {
    let vs = vec![Visibility::Public, Visibility::Shared, Visibility::Public];
    assert_eq!(Visibility::min_visibility(&vs), Visibility::Shared);
    let vs = vec![Visibility::Public, Visibility::Private, Visibility::Shared];
    assert_eq!(Visibility::min_visibility(&vs), Visibility::Private);
    assert_eq!(Visibility::min_visibility(&Vec::new()), Visibility::Public);
}

/// Reading a small scalar back as a u64 recovers the integer it was
/// built from, including after arithmetic.
#[test]
fn test_scalar_to_u64() {
    assert_eq!(scalar_to_u64(&Scalar::from(0u64)), 0);
    assert_eq!(scalar_to_u64(&Scalar::from(42u64)), 42);
    assert_eq!(scalar_to_u64(&Scalar::from(u64::MAX)), u64::MAX);
    let sum = Scalar::from(1u64 << 60) + Scalar::from(1u64 << 60);
    assert_eq!(scalar_to_u64(&sum), 1u64 << 61);
    let (s0, s1) = two_party::share_scalar(&MpcScalar::from_private_u64(12345, 0));
    let (o0, _) = two_party::open_pair(&s0, &s1);
    assert_eq!(scalar_to_u64(&o0.value()), 12345);
}

/// The per-party linear combination, with each side handed the other's
/// batched maskings, agrees on both parties with the expected value.
#[test]
fn test_linear_combination_per_party() {
    let mut v0s = Vec::new();
    let mut v1s = Vec::new();
    let mut c0s = Vec::new();
    let mut c1s = Vec::new();
    let mut t0s = Vec::new();
    let mut t1s = Vec::new();
    for i in 0u64..3 {
        let (v0, v1) = two_party::share_scalar(&MpcScalar::from_private_u64(i + 1, 0));
        v0s.push(v0);
        v1s.push(v1);
        let (c0, c1) = two_party::share_scalar(&MpcScalar::from_private_u64(i + 4, 1));
        c0s.push(c0);
        c1s.push(c1);
        t0s.push(PartyIDBeaverSource::new(0).triplet());
        t1s.push(PartyIDBeaverSource::new(1).triplet());
    }
    let m0 = MpcScalar::batch_mul_message(&v0s, &c0s, &t0s);
    let m1 = MpcScalar::batch_mul_message(&v1s, &c1s, &t1s);
    let lc0 = MpcScalar::linear_combination(&v0s, &c0s, 0, &t0s, &m1).unwrap();
    let lc1 = MpcScalar::linear_combination(&v1s, &c1s, 1, &t1s, &m0).unwrap();
    let o0 = lc0.open(&lc1.value()).unwrap();
    let o1 = lc1.open(&lc0.value()).unwrap();
    // 1*4 + 2*5 + 3*6 = 32
    assert_eq!(o0.value(), Scalar::from(32u64));
    assert_eq!(o1.value(), Scalar::from(32u64));
}
