//! Tests of the shared Ristretto point engine: sharing, opening,
//! scalar–point multiplication, compression, and error cases.

use curve25519_dalek::constants::RISTRETTO_BASEPOINT_POINT;
use curve25519_dalek::ristretto::RistrettoPoint;
use curve25519_dalek::scalar::Scalar;
use mpc_ristretto::beaver::PartyIDBeaverSource;
use mpc_ristretto::error::MpcError;
use mpc_ristretto::mpc_ristretto::{MpcCompressedRistretto, MpcRistrettoPoint};
use mpc_ristretto::mpc_scalar::MpcScalar;
use mpc_ristretto::two_party;
use mpc_ristretto::Visibility;

fn base_mul(a: u64) -> RistrettoPoint {
    RISTRETTO_BASEPOINT_POINT * Scalar::from(a)
}

/// The base-point helpers compute a·G.
#[test]
fn test_base_point_mul() {
    assert_eq!(MpcRistrettoPoint::base_point_mul_u64(7), base_mul(7));
    assert_eq!(
        MpcRistrettoPoint::base_point_mul(&Scalar::from(9u64)),
        base_mul(9)
    );
}

/// Sharing a point and opening the sharing returns the point.
#[test]
fn test_share_and_open_point() {
    let p = MpcRistrettoPoint::from_private_u64(42, 0);
    let (s0, s1) = two_party::share_point(&p);
    assert_eq!(s0.visibility(), Visibility::Shared);
    let (o0, o1) = two_party::open_point_pair(&s0, &s1);
    assert_eq!(o0.value(), base_mul(42));
    assert_eq!(o1.value(), base_mul(42));
    assert_eq!(o0.visibility(), Visibility::Public);
}

/// Additive homomorphism over the group: open(P + Q) = open(P) + open(Q),
/// and subtraction and negation match.
#[test]
fn test_point_add_sub() {
    let (p0, p1) = two_party::share_point(&MpcRistrettoPoint::from_private_u64(11, 0));
    let (q0, q1) = two_party::share_point(&MpcRistrettoPoint::from_private_u64(31, 1));

    let (s0, s1) = two_party::add_point_pair(&p0, &p1, &q0, &q1);
    let (o0, _) = two_party::open_point_pair(&s0, &s1);
    assert_eq!(o0.value(), base_mul(42));

    let (d0, d1) = two_party::sub_point_pair(&q0, &q1, &p0, &p1);
    let (o0, _) = two_party::open_point_pair(&d0, &d1);
    assert_eq!(o0.value(), base_mul(20));

    let neg0 = p0.neg();
    let neg1 = p1.neg();
    let (z0, z1) = two_party::add_point_pair(&p0, &p1, &neg0, &neg1);
    let (o0, _) = two_party::open_point_pair(&z0, &z1);
    assert_eq!(o0.value(), base_mul(0));
}

/// Scalar–point multiplicative correctness: open(c·P) = open(c)·open(P)
/// for the Shared×Shared case via the Beaver trick, and for the public
/// cases locally.
#[test]
fn test_point_scalar_mul() {
    let t0 = PartyIDBeaverSource::new(0).triplet();
    let t1 = PartyIDBeaverSource::new(1).triplet();

    let (p0, p1) = two_party::share_point(&MpcRistrettoPoint::from_private_u64(6, 0));
    let (c0, c1) = two_party::share_scalar(&MpcScalar::from_private_u64(10, 1));
    let (r0, r1) = two_party::mul_point_pair(&p0, &p1, &c0, &c1, &t0, &t1);
    assert_eq!(r0.visibility(), Visibility::Shared);
    let (o0, o1) = two_party::open_point_pair(&r0, &r1);
    assert_eq!(o0.value(), base_mul(60));
    assert_eq!(o1.value(), base_mul(60));

    let pub_c0 = MpcScalar::from_public_u64(15, 0);
    let pub_c1 = MpcScalar::from_public_u64(15, 1);
    let (r0, r1) = two_party::mul_point_pair(&p0, &p1, &pub_c0, &pub_c1, &t0, &t1);
    let (o0, _) = two_party::open_point_pair(&r0, &r1);
    assert_eq!(o0.value(), base_mul(90));
}

/// Commit-and-open of a shared point returns the point; a tampered
/// opening is rejected.
#[test]
fn test_point_commit_and_open() {
    let (s0, s1) = two_party::share_point(&MpcRistrettoPoint::from_private_u64(42, 0));
    let (o0, o1) = two_party::commit_and_open_point_pair(&s0, &s1);
    assert_eq!(o0.value(), base_mul(42));
    assert_eq!(o1.value(), base_mul(42));

    let c1 = mpc_ristretto::commitment::RistrettoPointCommitment::commit(&s1.value());
    let tampered = s1.value() + RISTRETTO_BASEPOINT_POINT;
    let res = s0.commit_and_open(&c1.get_commitment(), &c1.get_blinding(), &tampered);
    assert!(matches!(res, Err(MpcError::AuthenticationError)));
}

/// Multiscalar multiplication folds c_i·P_i; empty inputs are an
/// arithmetic error.
#[test]
fn test_multiscalar_mul() {
    let points: Vec<MpcRistrettoPoint> = vec![2u64, 3, 4]
        .into_iter()
        .map(|v| MpcRistrettoPoint::from_public_u64(v, 0))
        .collect();
    let scalars = vec![Scalar::from(5u64), Scalar::from(6u64), Scalar::from(7u64)];
    let r = MpcRistrettoPoint::multiscalar_mul(&scalars, &points).unwrap();
    // 5*2 + 6*3 + 7*4 = 56
    assert_eq!(r.value(), base_mul(56));

    let res = MpcRistrettoPoint::multiscalar_mul(&Vec::new(), &Vec::new());
    assert!(matches!(res, Err(MpcError::ArithmeticError)));
}

/// Compression is a local bijection: decompressing a compressed share
/// recovers the share, and opening either representation agrees.
#[test]
fn test_compress_decompress() {
    let (s0, s1) = two_party::share_point(&MpcRistrettoPoint::from_private_u64(42, 0));
    let c0 = s0.compress();
    let c1 = s1.compress();
    assert_eq!(c0.visibility(), Visibility::Shared);
    let d0 = c0.decompress().unwrap();
    let d1 = c1.decompress().unwrap();
    assert_eq!(d0.value(), s0.value());
    let (o0, _) = two_party::open_point_pair(&d0, &d1);
    assert_eq!(o0.value(), base_mul(42));
}

/// An invalid 32-byte string decompresses to None and the caller
/// chooses how to report it.
#[test]
fn test_decompress_invalid() {
    // 32 0xff bytes are not a canonical Ristretto encoding
    let bad = MpcCompressedRistretto::from_public_bytes(&[0xffu8; 32], 0);
    assert!(bad.decompress().is_none());
}

/// Byte accessors round-trip, and the compressed identity is 32 zero
/// bytes.
#[test]
fn test_compressed_bytes_and_identity() {
    let buf = [7u8; 32];
    let c = MpcCompressedRistretto::from_private_bytes(&buf, 1);
    assert_eq!(c.as_bytes(), buf);
    assert_eq!(c.visibility(), Visibility::Private);

    let id = MpcCompressedRistretto::identity(0);
    assert!(id.is_identity());
    assert_eq!(id.as_bytes(), [0u8; 32]);
    assert!(!c.is_identity());
    let opened_id = id.decompress().unwrap();
    assert_eq!(opened_id.value(), base_mul(0));

    let wrapped = MpcCompressedRistretto::from_public_compressed_ristretto(
        base_mul(3).compress(),
        0,
    );
    assert_eq!(wrapped.decompress().unwrap().value(), base_mul(3));
}

/// Constructors wrap existing group elements and scalars with the stated
/// visibility; `identity`, `default` and `eq` behave as documented.
#[test]
fn test_point_constructors() {
    let p = MpcRistrettoPoint::from_public_ristretto_point(base_mul(5), 0);
    assert_eq!(p.value(), base_mul(5));
    assert_eq!(p.visibility(), Visibility::Public);
    let q = MpcRistrettoPoint::from_private_ristretto_point(base_mul(5), 1);
    assert_eq!(q.visibility(), Visibility::Private);
    assert!(p.eq(&q));
    let s = MpcRistrettoPoint::from_public_scalar(Scalar::from(5u64), 0);
    assert!(s.eq(&p));
    let t = MpcRistrettoPoint::from_private_scalar(Scalar::from(8u64), 0);
    assert!(!t.eq(&p));
    assert_eq!(MpcRistrettoPoint::identity(0).value(), base_mul(0));
    assert_eq!(MpcRistrettoPoint::default(1).value(), base_mul(0));
    assert_eq!(
        MpcRistrettoPoint::default_with_visibility(Visibility::Shared, 0).visibility(),
        Visibility::Shared
    );
    let r = MpcRistrettoPoint::random(0);
    assert_eq!(r.visibility(), Visibility::Private);
}

/// Opening a Private point is a visibility error; sharing a non-Private
/// point is rejected.
#[test]
fn test_point_visibility_errors() {
    let private = MpcRistrettoPoint::from_private_u64(5, 0);
    assert!(matches!(
        private.open(&base_mul(0)),
        Err(MpcError::VisibilityError)
    ));
    let public = MpcRistrettoPoint::from_public_u64(5, 0);
    assert!(matches!(public.share_secret(), Err(MpcError::VisibilityError)));
    let shared = MpcRistrettoPoint::from_u64_with_visibility(5, Visibility::Shared, 0);
    let c = MpcScalar::from_private_u64(2, 0);
    assert!(matches!(
        shared.mul_public(&c),
        Err(MpcError::VisibilityError)
    ));
}
