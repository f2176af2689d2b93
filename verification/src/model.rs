//! The integer model of the signature scheme.
//!
//! With every curve point read as its discrete logarithm (see [`crate::curve`]),
//! signing and verifying become arithmetic modulo the prime
//! [`group_order`](crate::curve::group_order): a public key is its secret
//! scalar, a signature is the message hash times that scalar, and the pairing
//! equations of the verification protocols reduce to sums of products. The
//! spec functions here state those sums and equations; the lemmas relate the
//! two computation strategies of aggregate verification and serve the laws in
//! [`crate::laws`].

use vstd::prelude::*;

use bls12_381_plus::G1Projective;
use bls12_381_plus::G2Prepared;

use crate::curve::g1_dlog;
use crate::curve::g2prep_dlog;
use crate::curve::group_order;
use crate::curve::miller_sum;

verus! {

/// The sum of a sequence of integers.
pub open spec fn sum_int(s: Seq<int>) -> int
    decreases s.len(),
{
    if s.len() == 0 {
        0
    } else {
        sum_int(s.drop_last()) + s.last()
    }
}

/// The sum of the products of a sequence of pairs: the exponent of a product
/// of pairings, before reduction modulo the group order.
pub open spec fn sum_prod(pairs: Seq<(int, int)>) -> int
    decreases pairs.len(),
{
    if pairs.len() == 0 {
        0
    } else {
        sum_prod(pairs.drop_last()) + pairs.last().0 * pairs.last().1
    }
}

/// The running target-group accumulation of the sequential verification
/// strategy: each pair's pairing is evaluated in full and folded in at once,
/// so every step reduces modulo the group order.
pub open spec fn gt_fold(pairs: Seq<(int, int)>) -> int
    decreases pairs.len(),
{
    if pairs.len() == 0 {
        0
    } else {
        (gt_fold(pairs.drop_last()) + (pairs.last().0 * pairs.last().1) % group_order())
            % group_order()
    }
}

/// The single-signer verification equation: the signature's logarithm must be
/// the message hash times the key's logarithm, modulo the group order.
pub open spec fn single_equation(sig_d: int, key_d: int, h: int) -> bool {
    sig_d == (h * key_d) % group_order()
}

/// The aggregate verification equation over a list of (message hash, key)
/// logarithm pairs: the sum of their products must reduce to the aggregate
/// signature's logarithm.
pub open spec fn aggregate_equation(sig_d: int, pairs: Seq<(int, int)>) -> bool {
    sum_prod(pairs) % group_order() == sig_d
}

/// A multi-pairing whose terms carry the given logarithm pairs computes the
/// same sum of products as the pairs themselves.
pub(crate) proof fn lemma_miller_sum_matches(
    terms: Seq<(G1Projective, G2Prepared)>,
    pairs: Seq<(int, int)>,
)
    requires
        terms.len() == pairs.len(),
        forall|j: int|
            0 <= j < terms.len() ==> g1_dlog((#[trigger] terms[j]).0) == pairs[j].0 && g2prep_dlog(
                terms[j].1,
            ) == pairs[j].1,
    ensures
        miller_sum(terms) == sum_prod(pairs),
    decreases terms.len(),
{
    if terms.len() > 0 {
        lemma_miller_sum_matches(terms.drop_last(), pairs.drop_last());
    }
}

/// Folding each pairing into the running target-group product, reducing
/// modulo the group order at every step (the sequential strategy), yields the
/// same residue as a single reduction of the full sum of products (the
/// batched strategy).
pub proof fn lemma_gt_fold_is_sum_prod(pairs: Seq<(int, int)>)
    ensures
        gt_fold(pairs) == sum_prod(pairs) % group_order(),
    decreases pairs.len(),
{
    let m = group_order();
    if pairs.len() == 0 {
        vstd::arithmetic::div_mod::lemma_small_mod(0, m as nat);
    } else {
        lemma_gt_fold_is_sum_prod(pairs.drop_last());
        let a = sum_prod(pairs.drop_last());
        let b = pairs.last().0 * pairs.last().1;
        vstd::arithmetic::div_mod::lemma_add_mod_noop(a, b, m);
    }
}

/// Folding in the pairing of a signature of logarithm `s` with the negated
/// generator cancels a product of pairings exactly when `s` is the reduced
/// sum of their exponents: the acceptance condition shared by both
/// verification strategies.
pub proof fn lemma_cancel_generator_term(prod: int, s: int)
    requires
        0 <= s < group_order(),
    ensures
        ((prod + s * (group_order() - 1)) % group_order() == 0) <==> (s == prod % group_order()),
{
    let m = group_order();
    assert(s * (m - 1) == m * s - s) by (nonlinear_arith);
    vstd::arithmetic::div_mod::lemma_mod_multiples_vanish(s, prod - s, m);
    assert(prod + s * (m - 1) == m * s + (prod - s));
    vstd::arithmetic::div_mod::lemma_mod_equivalence(prod, s, m);
    vstd::arithmetic::div_mod::lemma_small_mod(s as nat, m as nat);
}

/// Reducing each summand modulo the group order before summing does not
/// change the reduced sum.
pub proof fn lemma_sum_int_mod_map(vals: Seq<int>)
    ensures
        sum_int(vals.map_values(|v: int| v % group_order())) % group_order() == sum_int(vals)
            % group_order(),
    decreases vals.len(),
{
    let m = group_order();
    let mapped = vals.map_values(|v: int| v % m);
    if vals.len() == 0 {
        assert(mapped =~= Seq::<int>::empty());
    } else {
        lemma_sum_int_mod_map(vals.drop_last());
        assert(mapped.drop_last() =~= vals.drop_last().map_values(|v: int| v % m));
        assert(mapped.last() == vals.last() % m);
        let a = sum_int(vals.drop_last());
        let am = sum_int(vals.drop_last().map_values(|v: int| v % m));
        let b = vals.last();
        vstd::arithmetic::div_mod::lemma_add_mod_noop_right(am, b, m);
        vstd::arithmetic::div_mod::lemma_add_mod_noop(am, b, m);
        vstd::arithmetic::div_mod::lemma_add_mod_noop(a, b, m);
        vstd::arithmetic::div_mod::lemma_mod_twice(a, m);
    }
}

/// Replacing one pair changes the sum of products by the difference of the
/// two products.
pub proof fn lemma_sum_prod_update(pairs: Seq<(int, int)>, j: int, q: (int, int))
    requires
        0 <= j < pairs.len(),
    ensures
        sum_prod(pairs.update(j, q)) == sum_prod(pairs) - pairs[j].0 * pairs[j].1 + q.0 * q.1,
    decreases pairs.len(),
{
    if j == pairs.len() - 1 {
        assert(pairs.update(j, q).drop_last() =~= pairs.drop_last());
        assert(pairs.update(j, q).last() == q);
    } else {
        lemma_sum_prod_update(pairs.drop_last(), j, q);
        assert(pairs.update(j, q).drop_last() =~= pairs.drop_last().update(j, q));
        assert(pairs.update(j, q).last() == pairs.last());
    }
}

/// Summing a concatenation sums the parts.
pub proof fn lemma_sum_int_concat(s1: Seq<int>, s2: Seq<int>)
    ensures
        sum_int(s1 + s2) == sum_int(s1) + sum_int(s2),
    decreases s2.len(),
{
    if s2.len() == 0 {
        assert(s1 + s2 =~= s1);
    } else {
        assert((s1 + s2).drop_last() =~= s1 + s2.drop_last());
        assert((s1 + s2).last() == s2.last());
        lemma_sum_int_concat(s1, s2.drop_last());
    }
}

/// The sum of products of a sequence of pairs is the plain sum of the
/// sequence of each pair's product.
pub proof fn lemma_sum_prod_as_sum_int(pairs: Seq<(int, int)>)
    ensures
        sum_int(pairs.map_values(|p: (int, int)| p.0 * p.1)) == sum_prod(pairs),
    decreases pairs.len(),
{
    let prods = pairs.map_values(|p: (int, int)| p.0 * p.1);
    if pairs.len() == 0 {
        assert(prods =~= Seq::<int>::empty());
    } else {
        assert(prods.drop_last() =~= pairs.drop_last().map_values(|p: (int, int)| p.0 * p.1));
        assert(prods.last() == pairs.last().0 * pairs.last().1);
        lemma_sum_prod_as_sum_int(pairs.drop_last());
    }
}

/// The sum of a sequence is unchanged by dropping one element and adding it
/// back.
pub proof fn lemma_sum_int_remove(s: Seq<int>, i: int)
    requires
        0 <= i < s.len(),
    ensures
        sum_int(s) == sum_int(s.remove(i)) + s[i],
    decreases s.len(),
{
    if i == s.len() - 1 {
        assert(s.remove(i) =~= s.drop_last());
    } else {
        lemma_sum_int_remove(s.drop_last(), i);
        assert(s.remove(i).drop_last() =~= s.drop_last().remove(i));
        assert(s.remove(i).last() == s.last());
    }
}

/// Summation does not depend on the order of the summands: two sequences
/// with the same multiset of elements have the same sum.
pub proof fn lemma_sum_int_permutation(s1: Seq<int>, s2: Seq<int>)
    requires
        s1.to_multiset() == s2.to_multiset(),
    ensures
        sum_int(s1) == sum_int(s2),
    decreases s1.len(),
{
    broadcast use vstd::seq_lib::group_to_multiset_ensures;

    if s1.len() == 0 {
        assert(s2.to_multiset().len() == 0);
    } else {
        let x = s1.last();
        assert(s1.to_multiset().count(x) > 0);
        assert(s2.to_multiset().count(x) > 0);
        assert(s2.contains(x));
        let i = choose|i: int| 0 <= i < s2.len() && s2[i] == x;
        let s1p = s1.drop_last();
        let s2p = s2.remove(i);
        assert(s1p =~= s1.remove(s1.len() - 1));
        assert(s1p.to_multiset() =~= s1.to_multiset().remove(x));
        assert(s2p.to_multiset() =~= s2.to_multiset().remove(x));
        lemma_sum_int_permutation(s1p, s2p);
        lemma_sum_int_remove(s2, i);
    }
}

} // verus!
