//! End-to-end two-party scenarios over concrete inputs.

use curve25519_dalek::scalar::Scalar;
use mpc_ristretto::beaver::PartyIDBeaverSource;
use rand::RngCore;
use mpc_ristretto::error::MpcError;
use mpc_ristretto::commitment::RistrettoCommitment;
use mpc_ristretto::mpc_scalar::MpcScalar;
use mpc_ristretto::two_party;
use mpc_ristretto::Visibility;

fn triples(
) -> ((Scalar, Scalar, Scalar), (Scalar, Scalar, Scalar)) {
    (PartyIDBeaverSource::new(0).triplet(), PartyIDBeaverSource::new(1).triplet())
}

/// Party 0 inputs 42 and party 1 inputs 33, both shared; adding the
/// sharings and the public 58 and opening yields 133 on both parties.
#[test]
fn test_add() {
    let (s0_p0, s0_p1) = two_party::share_scalar(&MpcScalar::from_private_u64(42, 0));
    let (s1_p0, s1_p1) = two_party::share_scalar(&MpcScalar::from_private_u64(33, 1));
    let pub0 = MpcScalar::from_public_u64(58, 0);
    let pub1 = MpcScalar::from_public_u64(58, 1);

    let (sum0, sum1) = two_party::add_pair(&s0_p0, &s0_p1, &s1_p0, &s1_p1);
    assert_eq!(sum0.visibility(), Visibility::Shared);
    let (tot0, tot1) = two_party::add_pair(&sum0, &sum1, &pub0, &pub1);
    let (open0, open1) = two_party::open_pair(&tot0, &tot1);

    let expected = Scalar::from(133u64);
    assert_eq!(open0.value(), expected);
    assert_eq!(open1.value(), expected);
    assert_eq!(open0.visibility(), Visibility::Public);
    assert_eq!(open1.visibility(), Visibility::Public);
}

/// Party 0 inputs 10 and party 1 inputs 6, both shared: the Beaver
/// product opens to 60; a public 15 times the sharing of 10 opens to
/// 150; and the product of two public 15s opens to 225.
#[test]
fn test_mul() {
    let (t0, t1) = triples();
    let (x0, x1) = two_party::share_scalar(&MpcScalar::from_private_u64(10, 0));
    let (y0, y1) = two_party::share_scalar(&MpcScalar::from_private_u64(6, 1));

    let (p0, p1) = two_party::mul_pair(&x0, &x1, &y0, &y1, &t0, &t1);
    assert_eq!(p0.visibility(), Visibility::Shared);
    let (o0, o1) = two_party::open_pair(&p0, &p1);
    assert_eq!(o0.value(), Scalar::from(60u64));
    assert_eq!(o1.value(), Scalar::from(60u64));

    let fifteen0 = MpcScalar::from_public_u64(15, 0);
    let fifteen1 = MpcScalar::from_public_u64(15, 1);
    let (q0, q1) = two_party::mul_pair(&fifteen0, &fifteen1, &x0, &x1, &t0, &t1);
    assert_eq!(q0.visibility(), Visibility::Shared);
    let (o0, o1) = two_party::open_pair(&q0, &q1);
    assert_eq!(o0.value(), Scalar::from(150u64));
    assert_eq!(o1.value(), Scalar::from(150u64));

    let (r0, r1) = two_party::mul_pair(&fifteen0, &fifteen1, &fifteen0, &fifteen1, &t0, &t1);
    assert_eq!(r0.visibility(), Visibility::Public);
    let (o0, o1) = two_party::open_pair(&r0, &r1);
    assert_eq!(o0.value(), Scalar::from(225u64));
    assert_eq!(o1.value(), Scalar::from(225u64));
}

/// The batch square of [0, 1, ..., 9], with even indices public and odd
/// indices shared by party 0, opens elementwise to [0, 1, 4, ..., 81].
#[test]
fn test_batch_mul() {
    let mut vs0: Vec<MpcScalar> = Vec::new();
    let mut vs1: Vec<MpcScalar> = Vec::new();
    for v in 0u64..10 {
        if v % 2 == 0 {
            vs0.push(MpcScalar::from_public_u64(v, 0));
            vs1.push(MpcScalar::from_public_u64(v, 1));
        } else {
            let (s0, s1) = two_party::share_scalar(&MpcScalar::from_private_u64(v, 0));
            vs0.push(s0);
            vs1.push(s1);
        }
    }
    // one consistent triple pair per Shared x Shared element
    let count = MpcScalar::count_shared_pairs(&vs0, &vs0);
    assert_eq!(count, 5);
    let mut t0s = Vec::new();
    let mut t1s = Vec::new();
    for _ in 0..count {
        let (t0, t1) = triples();
        t0s.push(t0);
        t1s.push(t1);
    }

    let (prod0, prod1) = two_party::batch_mul_pair(&vs0, &vs1, &vs0, &vs1, &t0s, &t1s);
    assert_eq!(prod0.len(), 10);
    for i in 0..10u64 {
        let (o0, o1) = two_party::open_pair(&prod0[i as usize], &prod1[i as usize]);
        assert_eq!(o0.value(), Scalar::from(i * i));
        assert_eq!(o1.value(), Scalar::from(i * i));
    }
}

/// Commit-and-open of party 0's input 42 as a shared scalar returns the
/// Public 42 on both parties; if party 1 flips a bit of its opened share
/// after committing, party 0 sees an authentication error.
#[test]
fn test_commit_and_open() {
    let (x0, x1) = two_party::share_scalar(&MpcScalar::from_private_u64(42, 0));
    let (o0, o1) = two_party::commit_and_open_pair(&x0, &x1);
    assert_eq!(o0.value(), Scalar::from(42u64));
    assert_eq!(o1.value(), Scalar::from(42u64));
    assert_eq!(o0.visibility(), Visibility::Public);

    // party 1 commits to its true share but opens a tampered one
    let c1 = RistrettoCommitment::commit(&x1.value());
    let tampered = x1.value() + Scalar::ONE;
    let res = x0.commit_and_open(&c1.get_commitment(), &c1.get_blinding(), &tampered);
    assert!(matches!(res, Err(MpcError::AuthenticationError)));
}

/// Each party inputs its party id, shares it to both, adds 1 to each
/// share, sums the two, squares the sum and opens: (0 + 1 + 1 + 1)^2 = 9.
#[test]
fn test_simple_mpc() {
    let (t0, t1) = triples();
    let (a0, a1) = two_party::share_scalar(&MpcScalar::from_private_u64(0, 0));
    let (b0, b1) = two_party::share_scalar(&MpcScalar::from_private_u64(1, 1));
    let one0 = MpcScalar::from_public_u64(1, 0);
    let one1 = MpcScalar::from_public_u64(1, 1);

    let (a0, a1) = two_party::add_pair(&a0, &a1, &one0, &one1);
    let (b0, b1) = two_party::add_pair(&b0, &b1, &one0, &one1);
    let (sum0, sum1) = two_party::add_pair(&a0, &a1, &b0, &b1);
    let (sq0, sq1) = two_party::mul_pair(&sum0, &sum1, &sum0, &sum1, &t0, &t1);
    let (o0, o1) = two_party::open_pair(&sq0, &sq1);
    assert_eq!(o0.value(), Scalar::from(9u64));
    assert_eq!(o1.value(), Scalar::from(9u64));
}

/// Values 1..=5 shared by party 0 and coefficients 7..=11 shared by
/// party 1: the linear combination opens to 1·7 + 2·8 + 3·9 + 4·10 +
/// 5·11 = 145.
#[test]
fn test_linear_combination() {
    let mut v0s = Vec::new();
    let mut v1s = Vec::new();
    let mut c0s = Vec::new();
    let mut c1s = Vec::new();
    let mut t0s = Vec::new();
    let mut t1s = Vec::new();
    for i in 0u64..5 {
        let (v0, v1) = two_party::share_scalar(&MpcScalar::from_private_u64(i + 1, 0));
        v0s.push(v0);
        v1s.push(v1);
        let (c0, c1) = two_party::share_scalar(&MpcScalar::from_private_u64(i + 7, 1));
        c0s.push(c0);
        c1s.push(c1);
        let (t0, t1) = triples();
        t0s.push(t0);
        t1s.push(t1);
    }
    let (lc0, lc1) = two_party::linear_combination_pair(&v0s, &v1s, &c0s, &c1s, &t0s, &t1s);
    let (o0, o1) = two_party::open_pair(&lc0, &lc1);
    assert_eq!(o0.value(), Scalar::from(145u64));
    assert_eq!(o1.value(), Scalar::from(145u64));
}

/// A linear combination over random inputs, shared by alternating
/// owners, agrees with the plain integer computation.
#[test]
fn test_random_linear_comb() {
    let mut rng = rand::thread_rng();
    let n = 15;
    let mut v0s = Vec::new();
    let mut v1s = Vec::new();
    let mut c0s = Vec::new();
    let mut c1s = Vec::new();
    let mut t0s = Vec::new();
    let mut t1s = Vec::new();
    let mut expected: u128 = 0;
    for i in 0..n {
        let value = (rng.next_u32() / 2) as u64;
        let coeff = (rng.next_u32() / 2) as u64;
        expected += value as u128 * coeff as u128;
        let (v0, v1) =
            two_party::share_scalar(&MpcScalar::from_private_u64(value, (i % 2) as u64));
        v0s.push(v0);
        v1s.push(v1);
        let (c0, c1) =
            two_party::share_scalar(&MpcScalar::from_private_u64(coeff, (1 - i % 2) as u64));
        c0s.push(c0);
        c1s.push(c1);
        let (t0, t1) = triples();
        t0s.push(t0);
        t1s.push(t1);
    }
    let (lc0, lc1) = two_party::linear_combination_pair(&v0s, &v1s, &c0s, &c1s, &t0s, &t1s);
    let (o0, o1) = two_party::open_pair(&lc0, &lc1);
    assert_eq!(o0.value(), Scalar::from(expected));
    assert_eq!(o1.value(), Scalar::from(expected));
}
