//! The laws the scheme obeys, proved from the contracts of the verified
//! functions and the integer model.
//!
//! Each lemma here is stated over the spec functions that the public
//! functions' contracts use, so that together with those contracts it pins
//! the behaviour of whole call chains: signing then verifying, aggregating in
//! another order, running the other verification strategy. Two caveats are
//! inherent to the model: the group order's primality is not part of it, so
//! laws that in the real group fail only on hash collisions are stated with
//! the collision-freeness hypothesis spelled out; and a signature or key that
//! degenerates to the identity (a zero secret key, or a sum of signatures
//! cancelling to zero) is rejected by design, so the positive laws carry the
//! corresponding validity hypotheses.

use vstd::prelude::*;

use crate::curve::group_order;
use crate::model::aggregate_equation;
use crate::model::gt_fold;
use crate::model::lemma_gt_fold_is_sum_prod;
use crate::model::lemma_sum_int_concat;
use crate::model::lemma_sum_int_mod_map;
use crate::model::lemma_sum_int_permutation;
use crate::model::lemma_sum_prod_as_sum_int;
use crate::model::lemma_sum_prod_update;
use crate::model::single_equation;
use crate::model::sum_int;
use crate::model::sum_prod;
use crate::types::PublicKey;
use crate::types::Signature;

verus! {

/// A correctly produced signature verifies against the signer's own key.
///
/// `Signature::new` over a message whose hash has logarithm `h` with a secret
/// key of value `s` returns a signature of logarithm `(h * s) % group_order()`
/// (its contract), and `PublicKey::from_secret_key` a key of logarithm `s`;
/// whenever that signature is valid - which fails only for a zero key or a
/// degenerate hash - `Signature::verify`'s acceptance condition holds.
pub proof fn lemma_sign_then_verify(sig: Signature, pk: PublicKey, h: int, s: int)
    requires
        0 <= s < group_order(),
        pk.dlog() == s,
        sig.dlog() == (h * s) % group_order(),
        sig.valid(),
    ensures
        pk.valid(),
        single_equation(sig.dlog(), pk.dlog(), h),
{
    if s == 0 {
        assert(h * 0 == 0) by (nonlinear_arith);
        vstd::arithmetic::div_mod::lemma_small_mod(0, group_order() as nat);
    }
}

/// Verifying a signature against the wrong key or the wrong message rejects.
///
/// A signature of logarithm `(h * s) % group_order()` (signer `s`, message
/// hash `h`) checked against a key of value `sp` and a message of hash `hp`
/// fails the verification equation whenever the two products differ modulo
/// the group order - which, in the real group, a different key or a different
/// message gives except on a hash collision; the model cannot exclude the
/// collision itself, so it stands as the hypothesis.
pub proof fn lemma_mismatch_rejects(sig: Signature, pk: PublicKey, h: int, s: int, hp: int, sp: int)
    requires
        sig.dlog() == (h * s) % group_order(),
        pk.dlog() == sp,
        (h * s) % group_order() != (hp * sp) % group_order(),
    ensures
        !single_equation(sig.dlog(), pk.dlog(), hp),
{
}

/// Combining signatures (or keys) is order-independent: two sequences of
/// summands with the same multiset of elements combine to the same value.
/// Together with [`lemma_aggregation_grouping`] this says the left-fold over
/// group addition behaves as a sum: commutative and associative, with the
/// empty sequence giving the identity.
pub proof fn lemma_aggregation_order_independent(ds1: Seq<int>, ds2: Seq<int>)
    requires
        ds1.to_multiset() == ds2.to_multiset(),
    ensures
        sum_int(ds1) % group_order() == sum_int(ds2) % group_order(),
{
    lemma_sum_int_permutation(ds1, ds2);
}

/// Combining in groups agrees with combining all at once: adding the combined
/// value of one part to the combined value of the other yields the combined
/// value of the whole.
pub proof fn lemma_aggregation_grouping(ds1: Seq<int>, ds2: Seq<int>)
    ensures
        (sum_int(ds1) % group_order() + sum_int(ds2) % group_order()) % group_order() == sum_int(
            ds1 + ds2,
        ) % group_order(),
{
    lemma_sum_int_concat(ds1, ds2);
    vstd::arithmetic::div_mod::lemma_add_mod_noop(sum_int(ds1), sum_int(ds2), group_order());
}

/// The aggregate of signatures in which each signer correctly signed their
/// own message satisfies the aggregate verification equation.
///
/// `pairs` holds each signer's (message hash, key) logarithms and `sd` the
/// corresponding signatures' logarithms, each the reduced product that
/// `Signature::new` promises; the aggregate's logarithm is their reduced sum,
/// as `AggregateSignature::from_signatures` promises. (The aggregate must
/// additionally be valid and every key valid for the verify call to accept,
/// as its contract states.)
pub proof fn lemma_aggregate_of_own_signatures(pairs: Seq<(int, int)>, sd: Seq<int>)
    requires
        sd.len() == pairs.len(),
        forall|i: int|
            0 <= i < pairs.len() ==> sd[i] == ((#[trigger] pairs[i]).0 * pairs[i].1)
                % group_order(),
    ensures
        aggregate_equation(sum_int(sd) % group_order(), pairs),
{
    let m = group_order();
    let prods = pairs.map_values(|p: (int, int)| p.0 * p.1);
    assert(sd =~= prods.map_values(|v: int| v % m));
    lemma_sum_prod_as_sum_int(pairs);
    lemma_sum_int_mod_map(prods);
}

/// Changing any single signer's message (the aggregate signature unchanged)
/// breaks the aggregate verification equation, provided the changed product
/// lands in a different residue class - which a different message hash gives
/// except on a collision, as in [`lemma_mismatch_rejects`].
pub proof fn lemma_mutated_message_rejects(
    pairs: Seq<(int, int)>,
    j: int,
    q: (int, int),
    sig_d: int,
)
    requires
        0 <= j < pairs.len(),
        aggregate_equation(sig_d, pairs),
        (q.0 * q.1) % group_order() != (pairs[j].0 * pairs[j].1) % group_order(),
    ensures
        !aggregate_equation(sig_d, pairs.update(j, q)),
{
    let m = group_order();
    let a = pairs[j].0 * pairs[j].1;
    let b = q.0 * q.1;
    let sum = sum_prod(pairs);
    lemma_sum_prod_update(pairs, j, q);
    vstd::arithmetic::div_mod::lemma_mod_equivalence(sum - a + b, sum, m);
    vstd::arithmetic::div_mod::lemma_mod_equivalence(b, a, m);
}

/// The sequential and the batched aggregate-verification strategies accept
/// and reject alike.
///
/// The left side is the sequential strategy's final target-group logarithm:
/// the per-signer pairings folded in one at a time, with the signature's
/// negated-generator term last. The right side is the batched strategy's: one
/// reduction of the multi-pairing's full sum. The two accept - reach the
/// target group's identity - on exactly the same inputs.
pub proof fn lemma_strategies_agree(sig_d: int, pairs: Seq<(int, int)>)
    requires
        0 <= sig_d < group_order(),
    ensures
        ((gt_fold(pairs) + (sig_d * (group_order() - 1)) % group_order()) % group_order() == 0)
            <==> ((sum_prod(pairs) + sig_d * (group_order() - 1)) % group_order() == 0),
{
    let m = group_order();
    lemma_gt_fold_is_sum_prod(pairs);
    vstd::arithmetic::div_mod::lemma_add_mod_noop(sum_prod(pairs), sig_d * (m - 1), m);
    vstd::arithmetic::div_mod::lemma_mod_twice(sum_prod(pairs), m);
}

} // verus!
