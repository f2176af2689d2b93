//! The variant ("Vt") types: the same scheme with the curve roles swapped.
//!
//! Here public keys live in the small group G1 (48-byte encodings) and
//! signatures in the large group G2 (96 bytes), trading signature size
//! against key size. The protocols are the mirrors of those in
//! [`crate::types`], with the pairing's argument roles exchanged, and are
//! proved against the same integer model: the verification contracts use the
//! very spec functions ([`crate::model::single_equation`],
//! [`crate::model::aggregate_equation`]) of the other variant.

use vstd::prelude::*;

use bls12_381_plus::G1Projective;
use bls12_381_plus::G2Prepared;
use bls12_381_plus::G2Projective;
use subtle::Choice;

use crate::curve::choice_and;
use crate::curve::choice_bit;
use crate::curve::choice_from_bool;
use crate::curve::choice_not;
use crate::curve::choice_or;
use crate::curve::choice_to_bool;
use crate::curve::g1_add;
use crate::curve::g1_bytes_of;
use crate::curve::g1_ct_eq;
use crate::curve::g1_dlog;
use crate::curve::g1_from_bytes;
use crate::curve::g1_generator;
use crate::curve::g1_identity;
use crate::curve::g1_in_group;
use crate::curve::g1_is_identity;
use crate::curve::g1_is_on_curve;
use crate::curve::g1_mul;
use crate::curve::g1_neg;
use crate::curve::g1_select;
use crate::curve::g1_to_bytes;
use crate::curve::g2_add;
use crate::curve::g2_bytes_of;
use crate::curve::g2_ct_eq;
use crate::curve::g2_dlog;
use crate::curve::g2_from_bytes;
use crate::curve::g2_identity;
use crate::curve::g2_in_group;
use crate::curve::g2_is_identity;
use crate::curve::g2_is_on_curve;
use crate::curve::g2_mul;
use crate::curve::g2_prepare;
use crate::curve::g2_select;
use crate::curve::g2_to_bytes;
use crate::curve::g2prep_dlog;
use crate::curve::g2prep_ok;
use crate::curve::group_order;
use crate::curve::gt_add;
use crate::curve::gt_identity;
use crate::curve::gt_is_identity;
use crate::curve::gt_log;
use crate::curve::gt_ok;
use crate::curve::hash_to_g2;
use crate::curve::hash_to_g2_log;
use crate::curve::multi_pairing;
use crate::curve::pairing;
use crate::model::aggregate_equation;
use crate::model::gt_fold;
use crate::model::lemma_cancel_generator_term;
use crate::model::lemma_gt_fold_is_sum_prod;
use crate::model::lemma_miller_sum_matches;
use crate::model::single_equation;
use crate::model::sum_int;
use crate::model::sum_prod;
use crate::types::SecretKey;

verus! {

/// The discrete logarithms of a sequence of variant public keys.
pub open spec fn key_dlogs_vt(keys: Seq<PublicKeyVt>) -> Seq<int> {
    keys.map_values(|k: PublicKeyVt| k.dlog())
}

/// The discrete logarithms of a sequence of variant signatures.
pub open spec fn sig_dlogs_vt(sigs: Seq<SignatureVt>) -> Seq<int> {
    sigs.map_values(|s: SignatureVt| s.dlog())
}

/// Whether every key of a (key, message) list is valid.
pub open spec fn all_keys_valid_vt(data: Seq<(PublicKeyVt, Vec<u8>)>) -> bool {
    forall|i: int| 0 <= i < data.len() ==> (#[trigger] data[i]).0.valid()
}

/// The (key logarithm, message-hash logarithm) pairs of a (key, message)
/// list: the exponents of the pairings that aggregate verification combines.
/// The key stands first because in this variant it is the G1 argument of the
/// pairing.
pub open spec fn key_hash_pairs_vt(data: Seq<(PublicKeyVt, Vec<u8>)>) -> Seq<(int, int)> {
    data.map_values(|e: (PublicKeyVt, Vec<u8>)| (e.0.dlog(), hash_to_g2_log(e.1@)))
}

// ---------------------------------------------------------------------------
// Public keys in G1 (matching signatures in G2).
// ---------------------------------------------------------------------------

/// A variant BLS public key: the G1 generator scaled by the secret key.
#[derive(Clone, Copy)]
pub struct PublicKeyVt {
    point: G1Projective,
}

impl PublicKeyVt {
    /// Number of bytes needed to represent the public key.
    pub const BYTES: usize = 48;

    /// The discrete logarithm of the key's point: the secret scalar it was
    /// derived from.
    pub closed spec fn dlog(self) -> int {
        g1_dlog(self.point)
    }

    /// A key is valid when its point is not the group identity.
    pub open spec fn valid(self) -> bool {
        self.dlog() != 0
    }

    #[verifier::type_invariant]
    spec fn wf(self) -> bool {
        g1_in_group(self.point) && 0 <= g1_dlog(self.point) < group_order()
    }

    /// The public key of the given secret key: the generator scaled by it.
    pub fn from_secret_key(sk: &SecretKey) -> (r: Self)
        ensures
            r.dlog() == sk.val(),
    {
        let s = sk.scalar();
        proof {
            vstd::arithmetic::div_mod::lemma_small_mod(sk.val() as nat, group_order() as nat);
        }
        let g = g1_generator();
        PublicKeyVt { point: g1_mul(&g, &s) }
    }

    /// Constant-time validity test: set exactly when the point is neither the
    /// identity nor off the curve.
    pub fn is_valid(&self) -> (r: Choice)
        ensures
            choice_bit(r) == self.valid(),
    {
        proof {
            use_type_invariant(&*self);
        }
        let id = g1_is_identity(&self.point);
        let oc = g1_is_on_curve(&self.point);
        choice_and(choice_not(id), oc)
    }

    /// Constant-time invalidity test: set exactly when the point is the
    /// identity or off the curve.
    pub fn is_invalid(&self) -> (r: Choice)
        ensures
            choice_bit(r) == !self.valid(),
    {
        proof {
            use_type_invariant(&*self);
        }
        let id = g1_is_identity(&self.point);
        let oc = g1_is_on_curve(&self.point);
        choice_or(id, choice_not(oc))
    }

    /// The 48-byte compressed encoding of the key.
    pub fn to_bytes(&self) -> (r: [u8; 48])
        ensures
            r@ == g1_bytes_of(self.dlog()),
    {
        proof {
            use_type_invariant(&*self);
        }
        g1_to_bytes(&self.point)
    }

    /// Constant-time decoding of a compressed key; see
    /// [`crate::types::PublicKey::from_bytes`].
    pub fn from_bytes(bytes: &[u8; 48]) -> (r: (Self, Choice))
        ensures
            choice_bit(r.1) <==> exists|d: int|
                0 < d < group_order() && bytes@ == g1_bytes_of(d),
            choice_bit(r.1) ==> bytes@ == g1_bytes_of(r.0.dlog()) && r.0.valid(),
            forall|d: int|
                0 <= d < group_order() && bytes@ == g1_bytes_of(d) ==> ((d == 0
                    ==> !choice_bit(r.1)) && (d != 0 ==> choice_bit(r.1) && r.0.dlog() == d)),
    {
        let (p, ok) = g1_from_bytes(bytes);
        let id = g1_is_identity(&p);
        let present = choice_and(ok, choice_not(id));
        proof {
            if choice_bit(present) {
                assert(0 < g1_dlog(p) < group_order() && bytes@ == g1_bytes_of(g1_dlog(p)));
            }
        }
        (PublicKeyVt { point: p }, present)
    }

    /// Branch-free selection: the second key when the choice bit is set, the
    /// first otherwise.
    pub fn conditional_select(a: &Self, b: &Self, choice: Choice) -> (r: Self)
        ensures
            r.dlog() == if choice_bit(choice) {
                b.dlog()
            } else {
                a.dlog()
            },
    {
        proof {
            use_type_invariant(&*a);
            use_type_invariant(&*b);
        }
        PublicKeyVt { point: g1_select(&a.point, &b.point, choice) }
    }

    /// Constant-time equality of the two keys' points.
    pub fn ct_eq(&self, other: &Self) -> (r: Choice)
        ensures
            choice_bit(r) <==> self.dlog() == other.dlog(),
    {
        proof {
            use_type_invariant(&*self);
            use_type_invariant(&*other);
        }
        g1_ct_eq(&self.point, &other.point)
    }
}

impl Default for PublicKeyVt {
    /// The identity placeholder key; it is not valid.
    fn default() -> (r: Self)
        ensures
            r.dlog() == 0,
    {
        PublicKeyVt { point: g1_identity() }
    }
}

// ---------------------------------------------------------------------------
// Signatures in G2.
// ---------------------------------------------------------------------------

/// A variant BLS signature in G2: the hash of the message into G2, scaled by
/// the signer's secret key.
#[derive(Clone, Copy)]
pub struct SignatureVt {
    point: G2Projective,
}

impl SignatureVt {
    /// Number of bytes needed to represent the signature.
    pub const BYTES: usize = 96;

    /// The discrete logarithm of the signature's point.
    pub closed spec fn dlog(self) -> int {
        g2_dlog(self.point)
    }

    /// A signature is valid when its point is not the group identity.
    pub open spec fn valid(self) -> bool {
        self.dlog() != 0
    }

    #[verifier::type_invariant]
    spec fn wf(self) -> bool {
        g2_in_group(self.point) && 0 <= g2_dlog(self.point) < group_order()
    }

    /// Signs the message with the secret key: the message's hash point scaled
    /// by the secret scalar. A zero secret key cannot sign.
    pub fn new(sk: &SecretKey, msg: &[u8]) -> (r: Option<SignatureVt>)
        ensures
            r is Some <==> sk.val() != 0,
            r is Some ==> r->0.dlog() == (hash_to_g2_log(msg@) * sk.val()) % group_order(),
    {
        let s = sk.scalar();
        if crate::curve::scalar_is_zero(&s) {
            None
        } else {
            let h = hash_to_g2(msg);
            Some(SignatureVt { point: g2_mul(&h, &s) })
        }
    }

    /// Verifies the signature over the message against the public key; the
    /// mirror of [`crate::types::Signature::verify`], with the key as the G1
    /// argument of the pairing and the signature as the G2 argument.
    pub fn verify(&self, pk: PublicKeyVt, msg: &[u8]) -> (r: Choice)
        ensures
            choice_bit(r) == (self.valid() && pk.valid() && single_equation(
                self.dlog(),
                pk.dlog(),
                hash_to_g2_log(msg@),
            )),
    {
        proof {
            use_type_invariant(&*self);
            use_type_invariant(&pk);
        }
        let bad_sig = choice_to_bool(self.is_invalid());
        let bad_key = choice_to_bool(pk.is_invalid());
        if bad_sig || bad_key {
            return choice_from_bool(false);
        }
        let h = hash_to_g2(msg);
        let t_key = pairing(&pk.point, &h);
        let g = g1_generator();
        let ng = g1_neg(&g);
        let t_sig = pairing(&ng, &self.point);
        let acc = gt_add(&t_key, &t_sig);
        let ok = gt_is_identity(&acc);
        proof {
            let m = group_order();
            let prod = hash_to_g2_log(msg@) * pk.dlog();
            vstd::arithmetic::mul::lemma_mul_is_commutative(pk.dlog(), hash_to_g2_log(msg@));
            vstd::arithmetic::mul::lemma_mul_is_commutative(m - 1, self.dlog());
            vstd::arithmetic::div_mod::lemma_small_mod((m - 1) as nat, m as nat);
            vstd::arithmetic::div_mod::lemma_add_mod_noop(prod, self.dlog() * (m - 1), m);
            lemma_cancel_generator_term(prod, self.dlog());
        }
        choice_from_bool(ok)
    }

    /// Constant-time validity test.
    pub fn is_valid(&self) -> (r: Choice)
        ensures
            choice_bit(r) == self.valid(),
    {
        proof {
            use_type_invariant(&*self);
        }
        let id = g2_is_identity(&self.point);
        let oc = g2_is_on_curve(&self.point);
        choice_and(choice_not(id), oc)
    }

    /// Constant-time invalidity test.
    pub fn is_invalid(&self) -> (r: Choice)
        ensures
            choice_bit(r) == !self.valid(),
    {
        proof {
            use_type_invariant(&*self);
        }
        let id = g2_is_identity(&self.point);
        let oc = g2_is_on_curve(&self.point);
        choice_or(id, choice_not(oc))
    }

    /// The 96-byte compressed encoding of the signature.
    pub fn to_bytes(&self) -> (r: [u8; 96])
        ensures
            r@ == g2_bytes_of(self.dlog()),
    {
        proof {
            use_type_invariant(&*self);
        }
        g2_to_bytes(&self.point)
    }

    /// Constant-time decoding of a compressed signature; see
    /// [`crate::types::PublicKey::from_bytes`].
    pub fn from_bytes(bytes: &[u8; 96]) -> (r: (Self, Choice))
        ensures
            choice_bit(r.1) <==> exists|d: int|
                0 < d < group_order() && bytes@ == g2_bytes_of(d),
            choice_bit(r.1) ==> bytes@ == g2_bytes_of(r.0.dlog()) && r.0.valid(),
            forall|d: int|
                0 <= d < group_order() && bytes@ == g2_bytes_of(d) ==> ((d == 0
                    ==> !choice_bit(r.1)) && (d != 0 ==> choice_bit(r.1) && r.0.dlog() == d)),
    {
        let (p, ok) = g2_from_bytes(bytes);
        let id = g2_is_identity(&p);
        let present = choice_and(ok, choice_not(id));
        proof {
            if choice_bit(present) {
                assert(0 < g2_dlog(p) < group_order() && bytes@ == g2_bytes_of(g2_dlog(p)));
            }
        }
        (SignatureVt { point: p }, present)
    }

    /// Branch-free selection.
    pub fn conditional_select(a: &Self, b: &Self, choice: Choice) -> (r: Self)
        ensures
            r.dlog() == if choice_bit(choice) {
                b.dlog()
            } else {
                a.dlog()
            },
    {
        proof {
            use_type_invariant(&*a);
            use_type_invariant(&*b);
        }
        SignatureVt { point: g2_select(&a.point, &b.point, choice) }
    }

    /// Constant-time equality of the two signatures' points.
    pub fn ct_eq(&self, other: &Self) -> (r: Choice)
        ensures
            choice_bit(r) <==> self.dlog() == other.dlog(),
    {
        proof {
            use_type_invariant(&*self);
            use_type_invariant(&*other);
        }
        g2_ct_eq(&self.point, &other.point)
    }
}

impl Default for SignatureVt {
    /// The identity placeholder signature; it is not valid.
    fn default() -> (r: Self)
        ensures
            r.dlog() == 0,
    {
        SignatureVt { point: g2_identity() }
    }
}

// ---------------------------------------------------------------------------
// Multi-signature combination.
// ---------------------------------------------------------------------------

/// Several variant public keys summed into one.
#[derive(Clone, Copy)]
pub struct MultiPublicKeyVt {
    point: G1Projective,
}

impl MultiPublicKeyVt {
    /// Number of bytes needed to represent the multi public key.
    pub const BYTES: usize = 48;

    /// The discrete logarithm of the combined key.
    pub closed spec fn dlog(self) -> int {
        g1_dlog(self.point)
    }

    /// The combined key is valid when it is not the group identity.
    pub open spec fn valid(self) -> bool {
        self.dlog() != 0
    }

    #[verifier::type_invariant]
    spec fn wf(self) -> bool {
        g1_in_group(self.point) && 0 <= g1_dlog(self.point) < group_order()
    }

    /// Combines the keys by summing their points; an empty list yields the
    /// identity.
    pub fn from_public_keys(keys: &[PublicKeyVt]) -> (r: Self)
        ensures
            r.dlog() == sum_int(key_dlogs_vt(keys@)) % group_order(),
    {
        let ghost dlogs = key_dlogs_vt(keys@);
        let mut acc = g1_identity();
        proof {
            assert(dlogs.take(0) =~= Seq::<int>::empty());
            vstd::arithmetic::div_mod::lemma_small_mod(0, group_order() as nat);
        }
        let mut i: usize = 0;
        while i < keys.len()
            invariant
                0 <= i <= keys@.len(),
                dlogs == key_dlogs_vt(keys@),
                g1_in_group(acc),
                0 <= g1_dlog(acc) < group_order(),
                g1_dlog(acc) == sum_int(dlogs.take(i as int)) % group_order(),
            decreases keys@.len() - i,
        {
            let k = keys[i];
            proof {
                use_type_invariant(&k);
            }
            let next = g1_add(&acc, &k.point);
            proof {
                let t = i as int;
                let m = group_order();
                assert(dlogs.take(t + 1).drop_last() =~= dlogs.take(t));
                assert(dlogs.take(t + 1).last() == k.dlog());
                let a = sum_int(dlogs.take(t));
                vstd::arithmetic::div_mod::lemma_small_mod(k.dlog() as nat, m as nat);
                vstd::arithmetic::div_mod::lemma_add_mod_noop(a, k.dlog(), m);
                vstd::arithmetic::div_mod::lemma_mod_twice(a, m);
            }
            acc = next;
            i = i + 1;
        }
        proof {
            assert(dlogs.take(keys@.len() as int) =~= dlogs);
        }
        MultiPublicKeyVt { point: acc }
    }

    /// Constant-time validity test.
    pub fn is_valid(&self) -> (r: Choice)
        ensures
            choice_bit(r) == self.valid(),
    {
        proof {
            use_type_invariant(&*self);
        }
        let id = g1_is_identity(&self.point);
        let oc = g1_is_on_curve(&self.point);
        choice_and(choice_not(id), oc)
    }

    /// Constant-time invalidity test.
    pub fn is_invalid(&self) -> (r: Choice)
        ensures
            choice_bit(r) == !self.valid(),
    {
        proof {
            use_type_invariant(&*self);
        }
        let id = g1_is_identity(&self.point);
        let oc = g1_is_on_curve(&self.point);
        choice_or(id, choice_not(oc))
    }

    /// The 48-byte compressed encoding of the combined key.
    pub fn to_bytes(&self) -> (r: [u8; 48])
        ensures
            r@ == g1_bytes_of(self.dlog()),
    {
        proof {
            use_type_invariant(&*self);
        }
        g1_to_bytes(&self.point)
    }

    /// Constant-time decoding; see [`crate::types::PublicKey::from_bytes`].
    pub fn from_bytes(bytes: &[u8; 48]) -> (r: (Self, Choice))
        ensures
            choice_bit(r.1) <==> exists|d: int|
                0 < d < group_order() && bytes@ == g1_bytes_of(d),
            choice_bit(r.1) ==> bytes@ == g1_bytes_of(r.0.dlog()) && r.0.valid(),
            forall|d: int|
                0 <= d < group_order() && bytes@ == g1_bytes_of(d) ==> ((d == 0
                    ==> !choice_bit(r.1)) && (d != 0 ==> choice_bit(r.1) && r.0.dlog() == d)),
    {
        let (p, ok) = g1_from_bytes(bytes);
        let id = g1_is_identity(&p);
        let present = choice_and(ok, choice_not(id));
        proof {
            if choice_bit(present) {
                assert(0 < g1_dlog(p) < group_order() && bytes@ == g1_bytes_of(g1_dlog(p)));
            }
        }
        (MultiPublicKeyVt { point: p }, present)
    }

    /// Branch-free selection.
    pub fn conditional_select(a: &Self, b: &Self, choice: Choice) -> (r: Self)
        ensures
            r.dlog() == if choice_bit(choice) {
                b.dlog()
            } else {
                a.dlog()
            },
    {
        proof {
            use_type_invariant(&*a);
            use_type_invariant(&*b);
        }
        MultiPublicKeyVt { point: g1_select(&a.point, &b.point, choice) }
    }

    /// Constant-time equality of the two combined keys' points.
    pub fn ct_eq(&self, other: &Self) -> (r: Choice)
        ensures
            choice_bit(r) <==> self.dlog() == other.dlog(),
    {
        proof {
            use_type_invariant(&*self);
            use_type_invariant(&*other);
        }
        g1_ct_eq(&self.point, &other.point)
    }
}

impl Default for MultiPublicKeyVt {
    /// The identity placeholder key; it is not valid.
    fn default() -> (r: Self)
        ensures
            r.dlog() == 0,
    {
        MultiPublicKeyVt { point: g1_identity() }
    }
}

/// Several variant signatures over one shared message summed into one.
#[derive(Clone, Copy)]
pub struct MultiSignatureVt {
    point: G2Projective,
}

impl MultiSignatureVt {
    /// Number of bytes needed to represent the multi-signature.
    pub const BYTES: usize = 96;

    /// The discrete logarithm of the combined signature.
    pub closed spec fn dlog(self) -> int {
        g2_dlog(self.point)
    }

    /// The combined signature is valid when it is not the group identity.
    pub open spec fn valid(self) -> bool {
        self.dlog() != 0
    }

    #[verifier::type_invariant]
    spec fn wf(self) -> bool {
        g2_in_group(self.point) && 0 <= g2_dlog(self.point) < group_order()
    }

    /// Combines the signatures by summing their points; an empty list yields
    /// the identity.
    pub fn from_signatures(sigs: &[SignatureVt]) -> (r: Self)
        ensures
            r.dlog() == sum_int(sig_dlogs_vt(sigs@)) % group_order(),
    {
        let ghost dlogs = sig_dlogs_vt(sigs@);
        let mut acc = g2_identity();
        proof {
            assert(dlogs.take(0) =~= Seq::<int>::empty());
            vstd::arithmetic::div_mod::lemma_small_mod(0, group_order() as nat);
        }
        let mut i: usize = 0;
        while i < sigs.len()
            invariant
                0 <= i <= sigs@.len(),
                dlogs == sig_dlogs_vt(sigs@),
                g2_in_group(acc),
                0 <= g2_dlog(acc) < group_order(),
                g2_dlog(acc) == sum_int(dlogs.take(i as int)) % group_order(),
            decreases sigs@.len() - i,
        {
            let s = sigs[i];
            proof {
                use_type_invariant(&s);
            }
            let next = g2_add(&acc, &s.point);
            proof {
                let t = i as int;
                let m = group_order();
                assert(dlogs.take(t + 1).drop_last() =~= dlogs.take(t));
                assert(dlogs.take(t + 1).last() == s.dlog());
                let a = sum_int(dlogs.take(t));
                vstd::arithmetic::div_mod::lemma_small_mod(s.dlog() as nat, m as nat);
                vstd::arithmetic::div_mod::lemma_add_mod_noop(a, s.dlog(), m);
                vstd::arithmetic::div_mod::lemma_mod_twice(a, m);
            }
            acc = next;
            i = i + 1;
        }
        proof {
            assert(dlogs.take(sigs@.len() as int) =~= dlogs);
        }
        MultiSignatureVt { point: acc }
    }

    /// Verifies the multi-signature over the shared message against the
    /// combined public key: single-signer verification applied to the summed
    /// signature and summed key.
    pub fn verify(&self, public_key: MultiPublicKeyVt, msg: &[u8]) -> (r: Choice)
        ensures
            choice_bit(r) == (self.valid() && public_key.valid() && single_equation(
                self.dlog(),
                public_key.dlog(),
                hash_to_g2_log(msg@),
            )),
    {
        proof {
            use_type_invariant(&*self);
            use_type_invariant(&public_key);
        }
        let sig = SignatureVt { point: self.point };
        let pk = PublicKeyVt { point: public_key.point };
        sig.verify(pk, msg)
    }

    /// Constant-time validity test.
    pub fn is_valid(&self) -> (r: Choice)
        ensures
            choice_bit(r) == self.valid(),
    {
        proof {
            use_type_invariant(&*self);
        }
        let id = g2_is_identity(&self.point);
        let oc = g2_is_on_curve(&self.point);
        choice_and(choice_not(id), oc)
    }

    /// Constant-time invalidity test.
    pub fn is_invalid(&self) -> (r: Choice)
        ensures
            choice_bit(r) == !self.valid(),
    {
        proof {
            use_type_invariant(&*self);
        }
        let id = g2_is_identity(&self.point);
        let oc = g2_is_on_curve(&self.point);
        choice_or(id, choice_not(oc))
    }

    /// The 96-byte compressed encoding of the multi-signature.
    pub fn to_bytes(&self) -> (r: [u8; 96])
        ensures
            r@ == g2_bytes_of(self.dlog()),
    {
        proof {
            use_type_invariant(&*self);
        }
        g2_to_bytes(&self.point)
    }

    /// Constant-time decoding; see [`crate::types::PublicKey::from_bytes`].
    pub fn from_bytes(bytes: &[u8; 96]) -> (r: (Self, Choice))
        ensures
            choice_bit(r.1) <==> exists|d: int|
                0 < d < group_order() && bytes@ == g2_bytes_of(d),
            choice_bit(r.1) ==> bytes@ == g2_bytes_of(r.0.dlog()) && r.0.valid(),
            forall|d: int|
                0 <= d < group_order() && bytes@ == g2_bytes_of(d) ==> ((d == 0
                    ==> !choice_bit(r.1)) && (d != 0 ==> choice_bit(r.1) && r.0.dlog() == d)),
    {
        let (p, ok) = g2_from_bytes(bytes);
        let id = g2_is_identity(&p);
        let present = choice_and(ok, choice_not(id));
        proof {
            if choice_bit(present) {
                assert(0 < g2_dlog(p) < group_order() && bytes@ == g2_bytes_of(g2_dlog(p)));
            }
        }
        (MultiSignatureVt { point: p }, present)
    }

    /// Branch-free selection.
    pub fn conditional_select(a: &Self, b: &Self, choice: Choice) -> (r: Self)
        ensures
            r.dlog() == if choice_bit(choice) {
                b.dlog()
            } else {
                a.dlog()
            },
    {
        proof {
            use_type_invariant(&*a);
            use_type_invariant(&*b);
        }
        MultiSignatureVt { point: g2_select(&a.point, &b.point, choice) }
    }

    /// Constant-time equality of the two multi-signatures' points.
    pub fn ct_eq(&self, other: &Self) -> (r: Choice)
        ensures
            choice_bit(r) <==> self.dlog() == other.dlog(),
    {
        proof {
            use_type_invariant(&*self);
            use_type_invariant(&*other);
        }
        g2_ct_eq(&self.point, &other.point)
    }
}

impl Default for MultiSignatureVt {
    /// The identity placeholder multi-signature; it is not valid.
    fn default() -> (r: Self)
        ensures
            r.dlog() == 0,
    {
        MultiSignatureVt { point: g2_identity() }
    }
}

// ---------------------------------------------------------------------------
// Aggregate signatures.
// ---------------------------------------------------------------------------

/// Several variant signatures over possibly different messages summed into
/// one, verified against the list of (key, message) pairs.
#[derive(Clone, Copy)]
pub struct AggregateSignatureVt {
    point: G2Projective,
}

impl AggregateSignatureVt {
    /// Number of bytes needed to represent the aggregate signature.
    pub const BYTES: usize = 96;

    /// The discrete logarithm of the aggregate.
    pub closed spec fn dlog(self) -> int {
        g2_dlog(self.point)
    }

    /// The aggregate is valid when it is not the group identity.
    pub open spec fn valid(self) -> bool {
        self.dlog() != 0
    }

    #[verifier::type_invariant]
    spec fn wf(self) -> bool {
        g2_in_group(self.point) && 0 <= g2_dlog(self.point) < group_order()
    }

    /// What aggregate verification accepts: a valid aggregate, all keys
    /// valid, and the sum over all signers of (key x message hash) reducing
    /// to the aggregate's logarithm - the same equation as in the other
    /// variant, with the roles of the two groups exchanged.
    pub open spec fn verify_spec(self, data: Seq<(PublicKeyVt, Vec<u8>)>) -> bool {
        self.valid() && all_keys_valid_vt(data) && aggregate_equation(
            self.dlog(),
            key_hash_pairs_vt(data),
        )
    }

    /// Combines the signatures by summing their points; an empty list yields
    /// the identity.
    pub fn from_signatures(sigs: &[SignatureVt]) -> (r: Self)
        ensures
            r.dlog() == sum_int(sig_dlogs_vt(sigs@)) % group_order(),
    {
        let ghost dlogs = sig_dlogs_vt(sigs@);
        let mut acc = g2_identity();
        proof {
            assert(dlogs.take(0) =~= Seq::<int>::empty());
            vstd::arithmetic::div_mod::lemma_small_mod(0, group_order() as nat);
        }
        let mut i: usize = 0;
        while i < sigs.len()
            invariant
                0 <= i <= sigs@.len(),
                dlogs == sig_dlogs_vt(sigs@),
                g2_in_group(acc),
                0 <= g2_dlog(acc) < group_order(),
                g2_dlog(acc) == sum_int(dlogs.take(i as int)) % group_order(),
            decreases sigs@.len() - i,
        {
            let s = sigs[i];
            proof {
                use_type_invariant(&s);
            }
            let next = g2_add(&acc, &s.point);
            proof {
                let t = i as int;
                let m = group_order();
                assert(dlogs.take(t + 1).drop_last() =~= dlogs.take(t));
                assert(dlogs.take(t + 1).last() == s.dlog());
                let a = sum_int(dlogs.take(t));
                vstd::arithmetic::div_mod::lemma_small_mod(s.dlog() as nat, m as nat);
                vstd::arithmetic::div_mod::lemma_add_mod_noop(a, s.dlog(), m);
                vstd::arithmetic::div_mod::lemma_mod_twice(a, m);
            }
            acc = next;
            i = i + 1;
        }
        proof {
            assert(dlogs.take(sigs@.len() as int) =~= dlogs);
        }
        AggregateSignatureVt { point: acc }
    }

    /// Verifies the aggregate against the (key, message) list with the
    /// batched strategy: here each signer contributes the pairing of its G1
    /// key with its prepared G2 message hash, and the closing term pairs the
    /// negated G1 generator with the prepared aggregate signature.
    pub fn verify(&self, data: &[(PublicKeyVt, Vec<u8>)]) -> (r: Choice)
        ensures
            choice_bit(r) == self.verify_spec(data@),
    {
        proof {
            use_type_invariant(&*self);
        }
        let bad = choice_to_bool(self.is_invalid());
        if bad {
            return choice_from_bool(false);
        }
        let ghost pairs = key_hash_pairs_vt(data@);
        let mut terms: Vec<(G1Projective, G2Prepared)> = Vec::new();
        let mut i: usize = 0;
        while i < data.len()
            invariant
                0 <= i <= data@.len(),
                pairs == key_hash_pairs_vt(data@),
                terms@.len() == i,
                forall|j: int| 0 <= j < i ==> (#[trigger] data@[j]).0.valid(),
                forall|j: int|
                    0 <= j < i ==> g1_in_group((#[trigger] terms@[j]).0) && g2prep_ok(
                        terms@[j].1,
                    ),
                forall|j: int|
                    0 <= j < i ==> g1_dlog((#[trigger] terms@[j]).0) == pairs[j].0 && g2prep_dlog(
                        terms@[j].1,
                    ) == pairs[j].1,
            decreases data@.len() - i,
        {
            let entry = &data[i];
            proof {
                use_type_invariant(&entry.0);
            }
            let bad_key = choice_to_bool(entry.0.is_invalid());
            if bad_key {
                return choice_from_bool(false);
            }
            let h = hash_to_g2(entry.1.as_slice());
            let prep = g2_prepare(&h);
            terms.push((entry.0.point, prep));
            i = i + 1;
        }
        let g = g1_generator();
        let ng = g1_neg(&g);
        let sprep = g2_prepare(&self.point);
        let ghost loop_terms = terms@;
        terms.push((ng, sprep));
        let acc = multi_pairing(&terms);
        let ok = gt_is_identity(&acc);
        proof {
            let m = group_order();
            vstd::arithmetic::mul::lemma_mul_is_commutative(m - 1, self.dlog());
            vstd::arithmetic::div_mod::lemma_small_mod((m - 1) as nat, m as nat);
            assert(terms@.drop_last() =~= loop_terms);
            lemma_miller_sum_matches(loop_terms, pairs);
            lemma_cancel_generator_term(sum_prod(pairs), self.dlog());
        }
        choice_from_bool(ok)
    }

    /// Verifies the aggregate with the sequential strategy: one full pairing
    /// per signer folded into a running target-group product. Accepts and
    /// rejects exactly as [`AggregateSignatureVt::verify`] does.
    pub fn verify_sequential(&self, data: &[(PublicKeyVt, Vec<u8>)]) -> (r: Choice)
        ensures
            choice_bit(r) == self.verify_spec(data@),
    {
        proof {
            use_type_invariant(&*self);
        }
        let bad = choice_to_bool(self.is_invalid());
        if bad {
            return choice_from_bool(false);
        }
        let ghost pairs = key_hash_pairs_vt(data@);
        let mut acc = gt_identity();
        proof {
            assert(pairs.take(0) =~= Seq::<(int, int)>::empty());
        }
        let mut i: usize = 0;
        while i < data.len()
            invariant
                0 <= i <= data@.len(),
                pairs == key_hash_pairs_vt(data@),
                forall|j: int| 0 <= j < i ==> (#[trigger] data@[j]).0.valid(),
                gt_ok(acc),
                gt_log(acc) == gt_fold(pairs.take(i as int)),
            decreases data@.len() - i,
        {
            let entry = &data[i];
            proof {
                use_type_invariant(&entry.0);
            }
            let bad_key = choice_to_bool(entry.0.is_invalid());
            if bad_key {
                return choice_from_bool(false);
            }
            let h = hash_to_g2(entry.1.as_slice());
            let t = pairing(&entry.0.point, &h);
            let next = gt_add(&acc, &t);
            proof {
                let ti = i as int;
                assert(pairs.take(ti + 1).drop_last() =~= pairs.take(ti));
                assert(pairs.take(ti + 1).last() == pairs[ti]);
            }
            acc = next;
            i = i + 1;
        }
        let g = g1_generator();
        let ng = g1_neg(&g);
        let t_sig = pairing(&ng, &self.point);
        let fin = gt_add(&acc, &t_sig);
        let ok = gt_is_identity(&fin);
        proof {
            let m = group_order();
            assert(pairs.take(data@.len() as int) =~= pairs);
            lemma_gt_fold_is_sum_prod(pairs);
            vstd::arithmetic::mul::lemma_mul_is_commutative(m - 1, self.dlog());
            vstd::arithmetic::div_mod::lemma_small_mod((m - 1) as nat, m as nat);
            vstd::arithmetic::div_mod::lemma_add_mod_noop(sum_prod(pairs), self.dlog() * (m - 1), m);
            lemma_cancel_generator_term(sum_prod(pairs), self.dlog());
        }
        choice_from_bool(ok)
    }

    /// Constant-time validity test.
    pub fn is_valid(&self) -> (r: Choice)
        ensures
            choice_bit(r) == self.valid(),
    {
        proof {
            use_type_invariant(&*self);
        }
        let id = g2_is_identity(&self.point);
        let oc = g2_is_on_curve(&self.point);
        choice_and(choice_not(id), oc)
    }

    /// Constant-time invalidity test.
    pub fn is_invalid(&self) -> (r: Choice)
        ensures
            choice_bit(r) == !self.valid(),
    {
        proof {
            use_type_invariant(&*self);
        }
        let id = g2_is_identity(&self.point);
        let oc = g2_is_on_curve(&self.point);
        choice_or(id, choice_not(oc))
    }

    /// The 96-byte compressed encoding of the aggregate signature.
    pub fn to_bytes(&self) -> (r: [u8; 96])
        ensures
            r@ == g2_bytes_of(self.dlog()),
    {
        proof {
            use_type_invariant(&*self);
        }
        g2_to_bytes(&self.point)
    }

    /// Constant-time decoding; see [`crate::types::PublicKey::from_bytes`].
    pub fn from_bytes(bytes: &[u8; 96]) -> (r: (Self, Choice))
        ensures
            choice_bit(r.1) <==> exists|d: int|
                0 < d < group_order() && bytes@ == g2_bytes_of(d),
            choice_bit(r.1) ==> bytes@ == g2_bytes_of(r.0.dlog()) && r.0.valid(),
            forall|d: int|
                0 <= d < group_order() && bytes@ == g2_bytes_of(d) ==> ((d == 0
                    ==> !choice_bit(r.1)) && (d != 0 ==> choice_bit(r.1) && r.0.dlog() == d)),
    {
        let (p, ok) = g2_from_bytes(bytes);
        let id = g2_is_identity(&p);
        let present = choice_and(ok, choice_not(id));
        proof {
            if choice_bit(present) {
                assert(0 < g2_dlog(p) < group_order() && bytes@ == g2_bytes_of(g2_dlog(p)));
            }
        }
        (AggregateSignatureVt { point: p }, present)
    }

    /// Branch-free selection.
    pub fn conditional_select(a: &Self, b: &Self, choice: Choice) -> (r: Self)
        ensures
            r.dlog() == if choice_bit(choice) {
                b.dlog()
            } else {
                a.dlog()
            },
    {
        proof {
            use_type_invariant(&*a);
            use_type_invariant(&*b);
        }
        AggregateSignatureVt { point: g2_select(&a.point, &b.point, choice) }
    }

    /// Constant-time equality of the two aggregates' points.
    pub fn ct_eq(&self, other: &Self) -> (r: Choice)
        ensures
            choice_bit(r) <==> self.dlog() == other.dlog(),
    {
        proof {
            use_type_invariant(&*self);
            use_type_invariant(&*other);
        }
        g2_ct_eq(&self.point, &other.point)
    }
}

impl Default for AggregateSignatureVt {
    /// The identity placeholder aggregate; it is not valid.
    fn default() -> (r: Self)
        ensures
            r.dlog() == 0,
    {
        AggregateSignatureVt { point: g2_identity() }
    }
}

} // verus!
