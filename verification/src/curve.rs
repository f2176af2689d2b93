//! Trusted boundary to the `bls12_381_plus` curve library.
//!
//! BLS12-381 offers two prime-order groups G1 and G2, both of the same prime
//! order `group_order()`, and a bilinear pairing into a target group whose
//! image is again cyclic of that order. Each group element is specified here
//! by its discrete logarithm with respect to the fixed generator: an integer
//! in `[0, group_order())`. The discrete logarithm of a point, membership in
//! the prime-order subgroup, the value wrapped by a `subtle::Choice`, and the
//! compressed encoding of a point are given by uninterpreted spec functions;
//! every wrapper below states what the curve library's documentation promises
//! of its result in those terms, and nothing is proved about the wrappers'
//! bodies.

use vstd::prelude::*;

use bls12_381_plus::elliptic_curve_013::hash2curve::ExpandMsgXmd;
use bls12_381_plus::group_013::Curve;
use bls12_381_plus::multi_miller_loop;
use bls12_381_plus::G1Affine;
use bls12_381_plus::G1Projective;
use bls12_381_plus::G2Affine;
use bls12_381_plus::G2Prepared;
use bls12_381_plus::G2Projective;
use bls12_381_plus::Gt;
use bls12_381_plus::Scalar;
use subtle::Choice;
use subtle::ConditionallySelectable;
use subtle::ConstantTimeEq;

verus! {

/// The prime order of G1, G2 and the pairing's target subgroup: the scalar
/// field modulus of BLS12-381.
pub open spec fn group_order() -> int {
    (0x73eda753299d7d483339d80809a1d805 * 0x10000000000000000 * 0x10000000000000000
        + 0x53bda402fffe5bfeffffffff00000001) as int
}

// ---------------------------------------------------------------------------
// Outside types, declared so that they can stand in signatures and fields.
// They are opaque: all Verus knows of a value is what the spec functions
// below say of it.
// ---------------------------------------------------------------------------

#[verifier::external_type_specification]
#[verifier::external_body]
pub struct ExChoice(Choice);

#[verifier::external_type_specification]
#[verifier::external_body]
pub struct ExScalar(Scalar);

#[verifier::external_type_specification]
#[verifier::external_body]
pub struct ExG1Projective(G1Projective);

#[verifier::external_type_specification]
#[verifier::external_body]
pub struct ExG2Projective(G2Projective);

#[verifier::external_type_specification]
#[verifier::external_body]
pub struct ExGt(Gt);

#[verifier::external_type_specification]
#[verifier::external_body]
pub struct ExG2Prepared(G2Prepared);

// ---------------------------------------------------------------------------
// The mathematical reading of the outside values.
// ---------------------------------------------------------------------------

/// The bit carried by a `subtle::Choice`: true exactly when it wraps 1.
pub uninterp spec fn choice_bit(c: Choice) -> bool;

/// The canonical integer value of a scalar, in `[0, group_order())`.
pub uninterp spec fn scalar_val(s: Scalar) -> int;

/// The discrete logarithm of a G1 subgroup point with respect to the fixed
/// generator, in `[0, group_order())`.
pub uninterp spec fn g1_dlog(p: G1Projective) -> int;

/// Whether a G1 value lies in the prime-order subgroup (which for BLS12-381's
/// G1 is the whole set of on-curve points reachable through the checked API).
pub uninterp spec fn g1_in_group(p: G1Projective) -> bool;

/// The discrete logarithm of a G2 subgroup point.
pub uninterp spec fn g2_dlog(p: G2Projective) -> int;

/// Whether a G2 value lies in the prime-order subgroup.
pub uninterp spec fn g2_in_group(p: G2Projective) -> bool;

/// The discrete logarithm of a target-group element with respect to the
/// pairing of the two generators.
pub uninterp spec fn gt_log(t: Gt) -> int;

/// Whether a target-group value lies in the order-`group_order()` subgroup;
/// every value produced by the wrappers below does.
pub uninterp spec fn gt_ok(t: Gt) -> bool;

/// The discrete logarithm of the G2 point a prepared pairing argument was
/// built from.
pub uninterp spec fn g2prep_dlog(p: G2Prepared) -> int;

/// Whether a prepared pairing argument was built from a G2 subgroup point.
pub uninterp spec fn g2prep_ok(p: G2Prepared) -> bool;

/// The discrete logarithm of the hash of a message into G1 (the standard
/// BLS signature ciphersuite for signatures in G1).
pub uninterp spec fn hash_to_g1_log(msg: Seq<u8>) -> int;

/// The discrete logarithm of the hash of a message into G2 (the ciphersuite
/// for the variant with signatures in G2).
pub uninterp spec fn hash_to_g2_log(msg: Seq<u8>) -> int;

/// The 48-byte compressed encoding of the G1 subgroup point with the given
/// discrete logarithm.
pub uninterp spec fn g1_bytes_of(d: int) -> Seq<u8>;

/// The 96-byte compressed encoding of the G2 subgroup point with the given
/// discrete logarithm.
pub uninterp spec fn g2_bytes_of(d: int) -> Seq<u8>;

// ---------------------------------------------------------------------------
// subtle: constant-time booleans.
// ---------------------------------------------------------------------------

/// Relies on `subtle::Choice::from`: a `u8` that is 0 or 1 becomes the
/// corresponding constant-time bit.
#[verifier::external_body]
pub(crate) fn choice_from_bool(b: bool) -> (r: Choice)
    ensures
        choice_bit(r) == b,
{
    Choice::from(b as u8)
}

/// Relies on `bool::from(subtle::Choice)`: unwraps the carried bit.
#[verifier::external_body]
pub(crate) fn choice_to_bool(c: Choice) -> (r: bool)
    ensures
        r == choice_bit(c),
{
    bool::from(c)
}

/// Relies on `subtle::Choice`'s `BitOr`: the disjunction of the two bits.
#[verifier::external_body]
pub(crate) fn choice_or(a: Choice, b: Choice) -> (r: Choice)
    ensures
        choice_bit(r) == (choice_bit(a) || choice_bit(b)),
{
    a | b
}

/// Relies on `subtle::Choice`'s `BitAnd`: the conjunction of the two bits.
#[verifier::external_body]
pub(crate) fn choice_and(a: Choice, b: Choice) -> (r: Choice)
    ensures
        choice_bit(r) == (choice_bit(a) && choice_bit(b)),
{
    a & b
}

/// Relies on `subtle::Choice`'s `Not`: the negated bit.
#[verifier::external_body]
pub(crate) fn choice_not(c: Choice) -> (r: Choice)
    ensures
        choice_bit(r) == !choice_bit(c),
{
    !c
}

// ---------------------------------------------------------------------------
// Scalars.
// ---------------------------------------------------------------------------

/// Relies on `Scalar::from(u64)`: the canonical scalar with that value
/// (every `u64` is below the 255-bit group order).
#[verifier::external_body]
pub(crate) fn scalar_from_u64(v: u64) -> (r: Scalar)
    ensures
        scalar_val(r) == v as int,
        0 <= scalar_val(r) < group_order(),
{
    Scalar::from(v)
}

/// Relies on `Scalar::ct_eq` against `Scalar::ZERO`: scalars are kept in
/// canonical form, so limb equality is value equality.
#[verifier::external_body]
pub(crate) fn scalar_is_zero(s: &Scalar) -> (r: bool)
    ensures
        r == (scalar_val(*s) == 0),
{
    bool::from(s.ct_eq(&Scalar::ZERO))
}

// ---------------------------------------------------------------------------
// G1.
// ---------------------------------------------------------------------------

/// Relies on `G1Projective::IDENTITY`: the point at infinity, of discrete
/// logarithm 0.
#[verifier::external_body]
pub(crate) fn g1_identity() -> (r: G1Projective)
    ensures
        g1_in_group(r),
        g1_dlog(r) == 0,
{
    G1Projective::IDENTITY
}

/// Relies on `G1Projective::GENERATOR`: the fixed generator, of discrete
/// logarithm 1.
#[verifier::external_body]
pub(crate) fn g1_generator() -> (r: G1Projective)
    ensures
        g1_in_group(r),
        g1_dlog(r) == 1,
{
    G1Projective::GENERATOR
}

/// Relies on `G1Projective`'s `Add`: the group law adds discrete logarithms
/// modulo the group order.
#[verifier::external_body]
pub(crate) fn g1_add(a: &G1Projective, b: &G1Projective) -> (r: G1Projective)
    requires
        g1_in_group(*a),
        g1_in_group(*b),
    ensures
        g1_in_group(r),
        g1_dlog(r) == (g1_dlog(*a) + g1_dlog(*b)) % group_order(),
{
    *a + *b
}

/// Relies on `G1Projective`'s `Neg`: negation negates the discrete logarithm
/// modulo the group order.
#[verifier::external_body]
pub(crate) fn g1_neg(p: &G1Projective) -> (r: G1Projective)
    requires
        g1_in_group(*p),
    ensures
        g1_in_group(r),
        g1_dlog(r) == (group_order() - g1_dlog(*p)) % group_order(),
{
    -*p
}

/// Relies on `G1Projective`'s `Mul<Scalar>`: scalar multiplication multiplies
/// the discrete logarithm by the scalar, modulo the group order.
#[verifier::external_body]
pub(crate) fn g1_mul(p: &G1Projective, s: &Scalar) -> (r: G1Projective)
    requires
        g1_in_group(*p),
    ensures
        g1_in_group(r),
        g1_dlog(r) == (g1_dlog(*p) * scalar_val(*s)) % group_order(),
{
    *p * *s
}

/// Relies on `G1Projective::hash` with the standard `ExpandMsgXmd<Sha256>`
/// ciphersuite for G1 signatures: a deterministic map from the message bytes
/// into the subgroup.
#[verifier::external_body]
pub(crate) fn hash_to_g1(msg: &[u8]) -> (r: G1Projective)
    ensures
        g1_in_group(r),
        g1_dlog(r) == hash_to_g1_log(msg@),
        0 <= g1_dlog(r) < group_order(),
{
    G1Projective::hash::<ExpandMsgXmd<sha2::Sha256>>(
        msg,
        b"BLS_SIG_BLS12381G1_XMD:SHA-256_SSWU_RO_NUL_",
    )
}

/// Relies on `G1Projective::is_identity`: true exactly for the point at
/// infinity, the one subgroup point of discrete logarithm 0.
#[verifier::external_body]
pub(crate) fn g1_is_identity(p: &G1Projective) -> (r: Choice)
    ensures
        g1_in_group(*p) ==> (choice_bit(r) <==> g1_dlog(*p) == 0),
{
    p.is_identity()
}

/// Relies on `G1Projective::is_on_curve`: subgroup points satisfy the curve
/// equation.
#[verifier::external_body]
pub(crate) fn g1_is_on_curve(p: &G1Projective) -> (r: Choice)
    ensures
        g1_in_group(*p) ==> choice_bit(r),
{
    p.is_on_curve()
}

/// Relies on `G1Projective::to_compressed`: the canonical 48-byte compressed
/// encoding, a function of the point alone.
#[verifier::external_body]
pub(crate) fn g1_to_bytes(p: &G1Projective) -> (r: [u8; 48])
    requires
        g1_in_group(*p),
    ensures
        r@ == g1_bytes_of(g1_dlog(*p)),
{
    p.to_compressed()
}

/// Relies on `G1Projective::from_compressed`: accepts exactly the canonical
/// compressed encodings of subgroup points (the identity's included) and
/// rejects everything else in constant time; on rejection the fallback is the
/// identity. The decoded point is on the curve and torsion-free.
#[verifier::external_body]
pub(crate) fn g1_from_bytes(bytes: &[u8; 48]) -> (r: (G1Projective, Choice))
    ensures
        g1_in_group(r.0),
        0 <= g1_dlog(r.0) < group_order(),
        choice_bit(r.1) ==> bytes@ == g1_bytes_of(g1_dlog(r.0)),
        forall|d: int|
            0 <= d < group_order() && bytes@ == g1_bytes_of(d) ==> choice_bit(r.1) && g1_dlog(
                r.0,
            ) == d,
{
    let ct = G1Projective::from_compressed(bytes);
    let present = ct.is_some();
    (ct.unwrap_or(G1Projective::IDENTITY), present)
}

/// Relies on `subtle::ConditionallySelectable` for `G1Projective`: returns
/// the second point when the choice bit is set, the first otherwise, without
/// branching on the bit.
#[verifier::external_body]
pub(crate) fn g1_select(a: &G1Projective, b: &G1Projective, c: Choice) -> (r: G1Projective)
    ensures
        choice_bit(c) ==> r == *b,
        !choice_bit(c) ==> r == *a,
{
    G1Projective::conditional_select(a, b, c)
}

/// Relies on `subtle::ConstantTimeEq` for `G1Projective`: point equality,
/// which on the subgroup is equality of discrete logarithms.
#[verifier::external_body]
pub(crate) fn g1_ct_eq(a: &G1Projective, b: &G1Projective) -> (r: Choice)
    ensures
        g1_in_group(*a) && g1_in_group(*b) ==> (choice_bit(r) <==> g1_dlog(*a) == g1_dlog(*b)),
{
    a.ct_eq(b)
}

// ---------------------------------------------------------------------------
// G2.
// ---------------------------------------------------------------------------

/// Relies on `G2Projective::IDENTITY`: the point at infinity, of discrete
/// logarithm 0.
#[verifier::external_body]
pub(crate) fn g2_identity() -> (r: G2Projective)
    ensures
        g2_in_group(r),
        g2_dlog(r) == 0,
{
    G2Projective::IDENTITY
}

/// Relies on `G2Projective::GENERATOR`: the fixed generator, of discrete
/// logarithm 1.
#[verifier::external_body]
pub(crate) fn g2_generator() -> (r: G2Projective)
    ensures
        g2_in_group(r),
        g2_dlog(r) == 1,
{
    G2Projective::GENERATOR
}

/// Relies on `G2Projective`'s `Add`: the group law adds discrete logarithms
/// modulo the group order.
#[verifier::external_body]
pub(crate) fn g2_add(a: &G2Projective, b: &G2Projective) -> (r: G2Projective)
    requires
        g2_in_group(*a),
        g2_in_group(*b),
    ensures
        g2_in_group(r),
        g2_dlog(r) == (g2_dlog(*a) + g2_dlog(*b)) % group_order(),
{
    *a + *b
}

/// Relies on `G2Projective`'s `Neg`: negation negates the discrete logarithm
/// modulo the group order.
#[verifier::external_body]
pub(crate) fn g2_neg(p: &G2Projective) -> (r: G2Projective)
    requires
        g2_in_group(*p),
    ensures
        g2_in_group(r),
        g2_dlog(r) == (group_order() - g2_dlog(*p)) % group_order(),
{
    -*p
}

/// Relies on `G2Projective`'s `Mul<Scalar>`: scalar multiplication multiplies
/// the discrete logarithm by the scalar, modulo the group order.
#[verifier::external_body]
pub(crate) fn g2_mul(p: &G2Projective, s: &Scalar) -> (r: G2Projective)
    requires
        g2_in_group(*p),
    ensures
        g2_in_group(r),
        g2_dlog(r) == (g2_dlog(*p) * scalar_val(*s)) % group_order(),
{
    *p * *s
}

/// Relies on `G2Projective::hash` with the standard `ExpandMsgXmd<Sha256>`
/// ciphersuite for G2 signatures: a deterministic map from the message bytes
/// into the subgroup.
#[verifier::external_body]
pub(crate) fn hash_to_g2(msg: &[u8]) -> (r: G2Projective)
    ensures
        g2_in_group(r),
        g2_dlog(r) == hash_to_g2_log(msg@),
        0 <= g2_dlog(r) < group_order(),
{
    G2Projective::hash::<ExpandMsgXmd<sha2::Sha256>>(
        msg,
        b"BLS_SIG_BLS12381G2_XMD:SHA-256_SSWU_RO_NUL_",
    )
}

/// Relies on `G2Projective::is_identity`: true exactly for the point at
/// infinity, the one subgroup point of discrete logarithm 0.
#[verifier::external_body]
pub(crate) fn g2_is_identity(p: &G2Projective) -> (r: Choice)
    ensures
        g2_in_group(*p) ==> (choice_bit(r) <==> g2_dlog(*p) == 0),
{
    p.is_identity()
}

/// Relies on `G2Projective::is_on_curve`: subgroup points satisfy the curve
/// equation.
#[verifier::external_body]
pub(crate) fn g2_is_on_curve(p: &G2Projective) -> (r: Choice)
    ensures
        g2_in_group(*p) ==> choice_bit(r),
{
    p.is_on_curve()
}

/// Relies on `G2Projective::to_compressed`: the canonical 96-byte compressed
/// encoding, a function of the point alone.
#[verifier::external_body]
pub(crate) fn g2_to_bytes(p: &G2Projective) -> (r: [u8; 96])
    requires
        g2_in_group(*p),
    ensures
        r@ == g2_bytes_of(g2_dlog(*p)),
{
    p.to_compressed()
}

/// Relies on `G2Projective::from_compressed`: accepts exactly the canonical
/// compressed encodings of subgroup points (the identity's included) and
/// rejects everything else in constant time; on rejection the fallback is the
/// identity. The decoded point is on the curve and torsion-free.
#[verifier::external_body]
pub(crate) fn g2_from_bytes(bytes: &[u8; 96]) -> (r: (G2Projective, Choice))
    ensures
        g2_in_group(r.0),
        0 <= g2_dlog(r.0) < group_order(),
        choice_bit(r.1) ==> bytes@ == g2_bytes_of(g2_dlog(r.0)),
        forall|d: int|
            0 <= d < group_order() && bytes@ == g2_bytes_of(d) ==> choice_bit(r.1) && g2_dlog(
                r.0,
            ) == d,
{
    let ct = G2Projective::from_compressed(bytes);
    let present = ct.is_some();
    (ct.unwrap_or(G2Projective::IDENTITY), present)
}

/// Relies on `subtle::ConditionallySelectable` for `G2Projective`: returns
/// the second point when the choice bit is set, the first otherwise, without
/// branching on the bit.
#[verifier::external_body]
pub(crate) fn g2_select(a: &G2Projective, b: &G2Projective, c: Choice) -> (r: G2Projective)
    ensures
        choice_bit(c) ==> r == *b,
        !choice_bit(c) ==> r == *a,
{
    G2Projective::conditional_select(a, b, c)
}

/// Relies on `subtle::ConstantTimeEq` for `G2Projective`: point equality,
/// which on the subgroup is equality of discrete logarithms.
#[verifier::external_body]
pub(crate) fn g2_ct_eq(a: &G2Projective, b: &G2Projective) -> (r: Choice)
    ensures
        g2_in_group(*a) && g2_in_group(*b) ==> (choice_bit(r) <==> g2_dlog(*a) == g2_dlog(*b)),
{
    a.ct_eq(b)
}

// ---------------------------------------------------------------------------
// The pairing and its target group.
// ---------------------------------------------------------------------------

/// Relies on `Gt::IDENTITY`: the neutral element of the target group.
#[verifier::external_body]
pub(crate) fn gt_identity() -> (r: Gt)
    ensures
        gt_ok(r),
        gt_log(r) == 0,
{
    Gt::IDENTITY
}

/// Relies on `Gt::product`: the target group's operation, which adds
/// logarithms modulo the group order.
#[verifier::external_body]
pub(crate) fn gt_add(a: &Gt, b: &Gt) -> (r: Gt)
    requires
        gt_ok(*a),
        gt_ok(*b),
    ensures
        gt_ok(r),
        gt_log(r) == (gt_log(*a) + gt_log(*b)) % group_order(),
{
    Gt::product(a, b)
}

/// Relies on `subtle::ConstantTimeEq` for `Gt` against `Gt::IDENTITY`: an
/// order-`group_order()` element is neutral exactly when its logarithm is 0.
#[verifier::external_body]
pub(crate) fn gt_is_identity(t: &Gt) -> (r: bool)
    requires
        gt_ok(*t),
    ensures
        r == (gt_log(*t) == 0),
{
    bool::from(t.ct_eq(&Gt::IDENTITY))
}

/// Relies on `bls12_381_plus::pairing`: the bilinear map, whose result has
/// the product of the two arguments' discrete logarithms as its logarithm.
#[verifier::external_body]
pub(crate) fn pairing(p: &G1Projective, q: &G2Projective) -> (r: Gt)
    requires
        g1_in_group(*p),
        g2_in_group(*q),
    ensures
        gt_ok(r),
        gt_log(r) == (g1_dlog(*p) * g2_dlog(*q)) % group_order(),
{
    bls12_381_plus::pairing(&p.to_affine(), &q.to_affine())
}

/// Relies on `G2Prepared::from(G2Affine)`: precomputes the Miller-loop
/// coefficients of a G2 point; the prepared argument stands for that point.
#[verifier::external_body]
pub(crate) fn g2_prepare(q: &G2Projective) -> (r: G2Prepared)
    requires
        g2_in_group(*q),
    ensures
        g2prep_ok(r),
        g2prep_dlog(r) == g2_dlog(*q),
{
    G2Prepared::from(q.to_affine())
}

/// The sum of the products of the discrete logarithms of each (G1 point,
/// prepared G2 argument) pair: what a multi-pairing computes, before
/// reduction modulo the group order.
pub open spec fn miller_sum(terms: Seq<(G1Projective, G2Prepared)>) -> int
    decreases terms.len(),
{
    if terms.len() == 0 {
        0
    } else {
        miller_sum(terms.drop_last()) + g1_dlog(terms.last().0) * g2prep_dlog(terms.last().1)
    }
}

/// Relies on `bls12_381_plus::multi_miller_loop` followed by
/// `MillerLoopResult::final_exponentiation`: together they compute the
/// product of the pairings of all the pairs, so the result's logarithm is
/// the sum of the pairs' logarithm products. Batching the Miller loops under
/// one shared final exponentiation is the library's multi-pairing shortcut.
#[verifier::external_body]
pub(crate) fn multi_pairing(terms: &Vec<(G1Projective, G2Prepared)>) -> (r: Gt)
    requires
        forall|i: int|
            0 <= i < terms@.len() ==> g1_in_group(#[trigger] terms@[i].0) && g2prep_ok(
                terms@[i].1,
            ),
    ensures
        gt_ok(r),
        gt_log(r) == miller_sum(terms@) % group_order(),
{
    let mut affine: Vec<(G1Affine, G2Prepared)> = Vec::with_capacity(terms.len());
    for t in terms.iter() {
        affine.push((t.0.to_affine(), t.1.clone()));
    }
    let refs: Vec<(&G1Affine, &G2Prepared)> = affine.iter().map(|t| (&t.0, &t.1)).collect();
    multi_miller_loop(&refs).final_exponentiation()
}

} // verus!
