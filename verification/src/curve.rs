//! The trusted boundary to the `curve25519_dalek` crate.
//!
//! The Ristretto group is cyclic of prime order ℓ, so both a field scalar
//! and a group element are modelled by a single integer in `[0, ℓ)`:
//! `scalar_val` is the integer a scalar represents, and `point_val` is a
//! point's discrete logarithm with respect to the Ristretto base point
//! (well defined because the base point generates the group).  Each wrapper
//! below makes one call into the crate and states, over these two models,
//! what the crate's documentation promises of it.  Without the crate's
//! legacy feature every publicly constructible `Scalar` is canonical
//! (reduced mod ℓ), so scalar equality coincides with equality of the
//! represented integers.

use crate::modular::{fadd, fmul, fneg, fsub, in_field};
use curve25519_dalek::ristretto::{CompressedRistretto, RistrettoPoint};
use curve25519_dalek::scalar::Scalar;
use curve25519_dalek::traits::Identity;
use vstd::prelude::*;

verus! {

#[verifier::external_type_specification]
#[verifier::external_body]
pub struct ExScalar(Scalar);

#[verifier::external_type_specification]
#[verifier::external_body]
pub struct ExRistrettoPoint(RistrettoPoint);

#[verifier::external_type_specification]
#[verifier::external_body]
pub struct ExCompressedRistretto(CompressedRistretto);

/// The integer in [0, ℓ) that a canonical scalar represents.
pub uninterp spec fn scalar_val(s: Scalar) -> int;

/// The discrete logarithm of a point with respect to the Ristretto base
/// point, an integer in [0, ℓ).
pub uninterp spec fn point_val(p: RistrettoPoint) -> int;

/// The 32 bytes held by a compressed point.
pub uninterp spec fn compressed_bytes(c: CompressedRistretto) -> Seq<u8>;

/// Whether 32 bytes are the canonical Ristretto encoding of some point.
pub uninterp spec fn bytes_decode_ok(b: Seq<u8>) -> bool;

/// The point (as its discrete logarithm) that valid bytes encode.
pub uninterp spec fn bytes_decode_val(b: Seq<u8>) -> int;

/// The point (as its discrete logarithm) derived from 64 uniform bytes.
pub uninterp spec fn uniform_point_val(b: Seq<u8>) -> int;

/// Relies on `Scalar::from(u64)`: the scalar representing the given
/// integer, which is below ℓ.
#[verifier::external_body]
pub fn scalar_from_u64(a: u64) -> (r: Scalar)
    ensures
        scalar_val(r) == a as int,
{
    Scalar::from(a)
}

/// Relies on the `Scalar` representation invariant: without the crate's
/// legacy feature, every publicly constructible scalar is reduced mod ℓ.
#[verifier::external_body]
pub fn scalar_reduced(a: Scalar) -> (r: Scalar)
    ensures
        r == a,
        in_field(scalar_val(r)),
{
    a
}

/// Relies on scalar addition: reduced addition mod ℓ.
#[verifier::external_body]
pub fn scalar_add(a: &Scalar, b: &Scalar) -> (r: Scalar)
    ensures
        scalar_val(r) == fadd(scalar_val(*a), scalar_val(*b)),
{
    a + b
}

/// Relies on scalar subtraction: reduced subtraction mod ℓ.
#[verifier::external_body]
pub fn scalar_sub(a: &Scalar, b: &Scalar) -> (r: Scalar)
    ensures
        scalar_val(r) == fsub(scalar_val(*a), scalar_val(*b)),
{
    a - b
}

/// Relies on scalar negation: the additive inverse mod ℓ.
#[verifier::external_body]
pub fn scalar_neg(a: &Scalar) -> (r: Scalar)
    ensures
        scalar_val(r) == fneg(scalar_val(*a)),
{
    -a
}

/// Relies on scalar multiplication: reduced multiplication mod ℓ.
#[verifier::external_body]
pub fn scalar_mul(a: &Scalar, b: &Scalar) -> (r: Scalar)
    ensures
        scalar_val(r) == fmul(scalar_val(*a), scalar_val(*b)),
{
    a * b
}

/// Relies on `Scalar`'s `PartialEq`: byte equality of canonical encodings,
/// which coincides with equality of the represented integers.
#[verifier::external_body]
pub fn scalar_eq(a: &Scalar, b: &Scalar) -> (r: bool)
    ensures
        r == (scalar_val(*a) == scalar_val(*b)),
{
    a == b
}

/// Relies on `Scalar::random` over the operating-system RNG: a scalar
/// reduced mod ℓ; nothing is assumed of its value.
#[verifier::external_body]
pub fn scalar_random() -> (r: Scalar)
    ensures
        in_field(scalar_val(r)),
{
    Scalar::random(&mut rand_core::OsRng)
}

/// The integer a little-endian byte string represents.
pub open spec fn bytes_le_val(b: Seq<u8>) -> int
    decreases b.len(),
{
    if b.len() == 0 {
        0
    } else {
        b[0] + 256 * bytes_le_val(b.skip(1))
    }
}

/// Relies on `Scalar::to_bytes`: the canonical 32-byte little-endian
/// encoding of the represented integer.
#[verifier::external_body]
pub fn scalar_to_bytes(s: &Scalar) -> (r: [u8; 32])
    ensures
        bytes_le_val(r@) == scalar_val(*s),
{
    s.to_bytes()
}

/// Relies on `RISTRETTO_BASEPOINT_POINT`: the generator, discrete log 1.
#[verifier::external_body]
pub fn base_point() -> (r: RistrettoPoint)
    ensures
        point_val(r) == 1,
{
    curve25519_dalek::constants::RISTRETTO_BASEPOINT_POINT
}

/// Relies on `RistrettoPoint::identity`: the neutral element, discrete log 0.
#[verifier::external_body]
pub fn point_identity() -> (r: RistrettoPoint)
    ensures
        point_val(r) == 0,
{
    RistrettoPoint::identity()
}

/// Relies on the cyclic group structure: every element's discrete
/// logarithm lies in [0, ℓ).
#[verifier::external_body]
pub fn point_reduced(a: RistrettoPoint) -> (r: RistrettoPoint)
    ensures
        r == a,
        in_field(point_val(r)),
{
    a
}

/// Relies on Ristretto point addition: the group operation adds discrete
/// logarithms mod ℓ.
#[verifier::external_body]
pub fn point_add(a: &RistrettoPoint, b: &RistrettoPoint) -> (r: RistrettoPoint)
    ensures
        point_val(r) == fadd(point_val(*a), point_val(*b)),
{
    a + b
}

/// Relies on Ristretto point subtraction.
#[verifier::external_body]
pub fn point_sub(a: &RistrettoPoint, b: &RistrettoPoint) -> (r: RistrettoPoint)
    ensures
        point_val(r) == fsub(point_val(*a), point_val(*b)),
{
    a - b
}

/// Relies on Ristretto point negation: the group inverse.
#[verifier::external_body]
pub fn point_neg(a: &RistrettoPoint) -> (r: RistrettoPoint)
    ensures
        point_val(r) == fneg(point_val(*a)),
{
    -a
}

/// Relies on scalar–point multiplication: multiplies the discrete
/// logarithm by the scalar mod ℓ.
#[verifier::external_body]
pub fn point_scalar_mul(p: &RistrettoPoint, s: &Scalar) -> (r: RistrettoPoint)
    ensures
        point_val(r) == fmul(scalar_val(*s), point_val(*p)),
{
    p * s
}

/// Relies on `RistrettoPoint`'s `PartialEq`: equality of group elements,
/// which coincides with equality of discrete logarithms.
#[verifier::external_body]
pub fn point_eq(a: &RistrettoPoint, b: &RistrettoPoint) -> (r: bool)
    ensures
        r == (point_val(*a) == point_val(*b)),
{
    a == b
}

/// Relies on `RistrettoPoint::random` over the operating-system RNG;
/// nothing is assumed of the sampled element.
#[verifier::external_body]
pub fn point_random() -> (r: RistrettoPoint)
    ensures
        in_field(point_val(r)),
{
    RistrettoPoint::random(&mut rand_core::OsRng)
}

/// Relies on `RistrettoPoint::from_uniform_bytes`: a group element derived
/// deterministically from 64 bytes.
#[verifier::external_body]
pub fn point_from_uniform_bytes(b: &[u8; 64]) -> (r: RistrettoPoint)
    ensures
        point_val(r) == uniform_point_val(b@),
        in_field(point_val(r)),
{
    RistrettoPoint::from_uniform_bytes(b)
}

/// Relies on `RistrettoPoint::compress`: the canonical 32-byte encoding,
/// from which decompression recovers the same group element.
#[verifier::external_body]
pub fn point_compress(p: &RistrettoPoint) -> (r: CompressedRistretto)
    ensures
        compressed_bytes(r).len() == 32,
        bytes_decode_ok(compressed_bytes(r)),
        bytes_decode_val(compressed_bytes(r)) == point_val(*p),
{
    p.compress()
}

/// Relies on `CompressedRistretto::decompress`: `Some` exactly when the
/// bytes are a valid canonical encoding, returning the encoded element.
#[verifier::external_body]
pub fn compressed_decompress(c: &CompressedRistretto) -> (r: Option<RistrettoPoint>)
    ensures
        r is Some <==> bytes_decode_ok(compressed_bytes(*c)),
        r is Some ==> point_val(r->Some_0) == bytes_decode_val(compressed_bytes(*c))
            && in_field(point_val(r->Some_0)),
{
    c.decompress()
}

/// Relies on `CompressedRistretto`'s public byte array.
#[verifier::external_body]
pub fn compressed_from_bytes(b: &[u8; 32]) -> (r: CompressedRistretto)
    ensures
        compressed_bytes(r) == b@,
{
    CompressedRistretto(*b)
}

/// Relies on `CompressedRistretto::as_bytes`.
#[verifier::external_body]
pub fn compressed_to_bytes(c: &CompressedRistretto) -> (r: [u8; 32])
    ensures
        r@ == compressed_bytes(*c),
{
    *c.as_bytes()
}

} // verus!
