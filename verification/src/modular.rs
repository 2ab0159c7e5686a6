//! The arithmetic of the Curve25519 scalar field, modelled as integers
//! modulo the prime group order ℓ.  Field elements are integers in
//! `[0, ℓ)`; `fadd`, `fsub`, `fneg` and `fmul` are the field operations.
//! The lemmas here are the congruence toolkit that the protocol proofs
//! are built from.

use vstd::arithmetic::div_mod::{
    lemma_add_mod_noop, lemma_mod_bound, lemma_mod_twice, lemma_mul_mod_noop_general,
    lemma_small_mod, lemma_sub_mod_noop,
};
use vstd::prelude::*;

verus! {

/// ℓ = 2^252 + 27742317777372353535851937790883648493, the prime order of
/// the Ristretto group and of the Curve25519 scalar field.
pub open spec fn group_order() -> int {
    0x1000000000000000000000000000000014def9dea2f79cd65812631a5cf5d3edint
}

/// A canonical field element: an integer in [0, ℓ).
pub open spec fn in_field(a: int) -> bool {
    0 <= a < group_order()
}

/// Field addition.
pub open spec fn fadd(a: int, b: int) -> int {
    (a + b) % group_order()
}

/// Field subtraction.
pub open spec fn fsub(a: int, b: int) -> int {
    (a - b) % group_order()
}

/// Field negation.
pub open spec fn fneg(a: int) -> int {
    (0 - a) % group_order()
}

/// Field multiplication.
pub open spec fn fmul(a: int, b: int) -> int {
    (a * b) % group_order()
}

/// Congruence modulo ℓ.
pub open spec fn cong(a: int, b: int) -> bool {
    a % group_order() == b % group_order()
}

/// Every field operation lands in [0, ℓ).
pub proof fn lemma_field_ops_in_field(a: int, b: int)
    ensures
        in_field(fadd(a, b)),
        in_field(fsub(a, b)),
        in_field(fneg(a)),
        in_field(fmul(a, b)),
{
    lemma_mod_bound(a + b, group_order());
    lemma_mod_bound(a - b, group_order());
    lemma_mod_bound(0 - a, group_order());
    lemma_mod_bound(a * b, group_order());
}

/// A field element reduces to itself.
pub proof fn lemma_in_field_mod_noop(a: int)
    requires
        in_field(a),
    ensures
        a % group_order() == a,
{
    lemma_small_mod(a as nat, group_order() as nat);
}

/// The result of a field operation is congruent to the integer operation.
pub proof fn lemma_fadd_cong(a: int, b: int)
    ensures
        cong(fadd(a, b), a + b),
{
    lemma_mod_twice(a + b, group_order());
}

pub proof fn lemma_fsub_cong(a: int, b: int)
    ensures
        cong(fsub(a, b), a - b),
{
    lemma_mod_twice(a - b, group_order());
}

pub proof fn lemma_fneg_cong(a: int)
    ensures
        cong(fneg(a), 0 - a),
{
    lemma_mod_twice(0 - a, group_order());
}

pub proof fn lemma_fmul_cong(a: int, b: int)
    ensures
        cong(fmul(a, b), a * b),
{
    lemma_mod_twice(a * b, group_order());
}

/// Congruent operands give congruent sums.
pub proof fn lemma_cong_add(a: int, b: int, a2: int, b2: int)
    requires
        cong(a, a2),
        cong(b, b2),
    ensures
        cong(a + b, a2 + b2),
{
    lemma_add_mod_noop(a, b, group_order());
    lemma_add_mod_noop(a2, b2, group_order());
}

/// Congruent operands give congruent differences.
pub proof fn lemma_cong_sub(a: int, b: int, a2: int, b2: int)
    requires
        cong(a, a2),
        cong(b, b2),
    ensures
        cong(a - b, a2 - b2),
{
    lemma_sub_mod_noop(a, b, group_order());
    lemma_sub_mod_noop(a2, b2, group_order());
}

/// Congruent operands give congruent products.
pub proof fn lemma_cong_mul(a: int, b: int, a2: int, b2: int)
    requires
        cong(a, a2),
        cong(b, b2),
    ensures
        cong(a * b, a2 * b2),
{
    lemma_mul_mod_noop_general(a, b, group_order());
    lemma_mul_mod_noop_general(a2, b2, group_order());
}

/// A field sum of terms congruent to a2 and b2 is congruent to a2 + b2.
pub proof fn lemma_fadd_cong_both(a: int, b: int, a2: int, b2: int)
    requires
        cong(a, a2),
        cong(b, b2),
    ensures
        cong(fadd(a, b), a2 + b2),
{
    lemma_cong_add(a, b, a2, b2);
    lemma_mod_twice(a + b, group_order());
}

/// A field product of factors congruent to a2 and b2 is congruent to a2·b2.
pub proof fn lemma_fmul_cong_both(a: int, b: int, a2: int, b2: int)
    requires
        cong(a, a2),
        cong(b, b2),
    ensures
        cong(fmul(a, b), a2 * b2),
{
    lemma_cong_mul(a, b, a2, b2);
    lemma_mod_twice(a * b, group_order());
}

/// Adding a negation is subtraction.
pub proof fn lemma_fadd_fneg(a: int, b: int)
    ensures
        fadd(a, fneg(b)) == fsub(a, b),
{
    lemma_fneg_cong(b);
    lemma_cong_add(a, fneg(b), a, 0 - b);
}

/// Rearrangements of a three-way field sum.
pub proof fn lemma_fadd_reorder(a: int, b: int, c: int)
    ensures
        fadd(fadd(a, b), c) == fadd(a, fadd(b, c)),
        fadd(fadd(a, b), c) == fadd(fadd(a, c), b),
{
    lemma_fadd_cong(a, b);
    lemma_fadd_cong(b, c);
    lemma_fadd_cong(a, c);
    lemma_cong_add(fadd(a, b), c, a + b, c);
    lemma_cong_add(a, fadd(b, c), a, b + c);
    lemma_cong_add(fadd(a, c), b, a + c, b);
}

/// Exchanging the grouping of a four-way field sum.
pub proof fn lemma_fadd_4(a: int, b: int, c: int, d: int)
    ensures
        fadd(fadd(a, b), fadd(c, d)) == fadd(fadd(a, c), fadd(b, d)),
{
    lemma_fadd_cong(a, b);
    lemma_fadd_cong(c, d);
    lemma_fadd_cong(a, c);
    lemma_fadd_cong(b, d);
    lemma_cong_add(fadd(a, b), fadd(c, d), a + b, c + d);
    lemma_cong_add(fadd(a, c), fadd(b, d), a + c, b + d);
}

/// Unmasking a blinded share recovers the value: (x - m) + m == x.
pub proof fn lemma_mask_unmask(x: int, m: int)
    requires
        in_field(x),
    ensures
        fadd(fsub(x, m), m) == x,
{
    lemma_fsub_cong(x, m);
    lemma_cong_add(fsub(x, m), m, x - m, m);
    lemma_mod_twice(x - m + m, group_order());
    lemma_in_field_mod_noop(x);
}

/// A nonzero difference of two field elements is nonzero mod ℓ.
pub proof fn lemma_small_nonzero_mod(d: int)
    requires
        0 - group_order() < d < group_order(),
        d != 0,
    ensures
        d % group_order() != 0,
{
    if d > 0 {
        lemma_small_mod(d as nat, group_order() as nat);
    } else {
        vstd::arithmetic::div_mod::lemma_fundamental_div_mod_converse_mod(
            d,
            group_order(),
            -1,
            d + group_order(),
        );
    }
}

/// Congruent field elements are equal.
pub proof fn lemma_cong_in_field(a: int, b: int)
    requires
        in_field(a),
        in_field(b),
        cong(a, b),
    ensures
        a == b,
{
    lemma_in_field_mod_noop(a);
    lemma_in_field_mod_noop(b);
}

} // verus!
