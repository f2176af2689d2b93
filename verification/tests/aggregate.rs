//! Multi-signatures, aggregate signatures, order-independence of combination,
//! and agreement of the two aggregate-verification strategies.

use bls_sig::AggregateSignature;
use bls_sig::AggregateSignatureVt;
use bls_sig::MultiPublicKey;
use bls_sig::MultiPublicKeyVt;
use bls_sig::MultiSignature;
use bls_sig::MultiSignatureVt;
use bls_sig::PublicKey;
use bls_sig::PublicKeyVt;
use bls_sig::SecretKey;
use bls_sig::Signature;
use bls_sig::SignatureVt;

fn signers(values: &[u64]) -> Vec<(SecretKey, PublicKey)> {
    values
        .iter()
        .map(|v| {
            let sk = SecretKey::from_u64(*v);
            let pk = PublicKey::from_secret_key(&sk);
            (sk, pk)
        })
        .collect()
}

#[test]
fn multi_signature_verifies_shared_message() {
    let parties = signers(&[3, 5, 9]);
    let msg = b"one shared message";
    let sigs: Vec<Signature> = parties
        .iter()
        .map(|(sk, _)| Signature::new(sk, msg).unwrap())
        .collect();
    let keys: Vec<PublicKey> = parties.iter().map(|(_, pk)| *pk).collect();
    let multi_sig = MultiSignature::from_signatures(&sigs);
    let multi_key = MultiPublicKey::from_public_keys(&keys);
    assert!(bool::from(multi_sig.verify(multi_key, msg)));
    assert!(!bool::from(multi_sig.verify(multi_key, b"another message")));
}

#[test]
fn multi_signature_verifies_shared_message_vt() {
    let msg = b"one shared message";
    let sks = [SecretKey::from_u64(3), SecretKey::from_u64(5)];
    let sigs: Vec<SignatureVt> = sks
        .iter()
        .map(|sk| SignatureVt::new(sk, msg).unwrap())
        .collect();
    let keys: Vec<PublicKeyVt> = sks.iter().map(PublicKeyVt::from_secret_key).collect();
    let multi_sig = MultiSignatureVt::from_signatures(&sigs);
    let multi_key = MultiPublicKeyVt::from_public_keys(&keys);
    assert!(bool::from(multi_sig.verify(multi_key, msg)));
    assert!(!bool::from(multi_sig.verify(multi_key, b"another message")));
}

#[test]
fn aggregation_is_order_independent() {
    let parties = signers(&[3, 5, 9]);
    let a = Signature::new(&parties[0].0, b"m-a").unwrap();
    let b = Signature::new(&parties[1].0, b"m-b").unwrap();
    let c = Signature::new(&parties[2].0, b"m-c").unwrap();
    let abc = AggregateSignature::from_signatures(&[a, b, c]);
    let cab = AggregateSignature::from_signatures(&[c, a, b]);
    let bca = AggregateSignature::from_signatures(&[b, c, a]);
    assert!(bool::from(abc.ct_eq(&cab)));
    assert!(bool::from(abc.ct_eq(&bca)));

    let keys = [parties[0].1, parties[1].1, parties[2].1];
    let kab = MultiPublicKey::from_public_keys(&keys);
    let kba = MultiPublicKey::from_public_keys(&[keys[2], keys[1], keys[0]]);
    assert!(bool::from(kab.ct_eq(&kba)));
}

#[test]
fn aggregate_of_distinct_messages_verifies() {
    let parties = signers(&[21, 22, 23, 24]);
    let msgs: [&[u8]; 4] = [b"alpha", b"beta", b"gamma", b"delta"];
    let sigs: Vec<Signature> = parties
        .iter()
        .zip(msgs.iter())
        .map(|((sk, _), m)| Signature::new(sk, m).unwrap())
        .collect();
    let agg = AggregateSignature::from_signatures(&sigs);
    let data: Vec<(PublicKey, Vec<u8>)> = parties
        .iter()
        .zip(msgs.iter())
        .map(|((_, pk), m)| (*pk, m.to_vec()))
        .collect();
    assert!(bool::from(agg.verify(&data)));
    assert!(bool::from(agg.verify_sequential(&data)));

    // Mutating any single message rejects.
    for j in 0..data.len() {
        let mut tampered = data.clone();
        tampered[j].1 = b"tampered".to_vec();
        assert!(!bool::from(agg.verify(&tampered)));
        assert!(!bool::from(agg.verify_sequential(&tampered)));
    }
}

#[test]
fn aggregate_of_distinct_messages_verifies_vt() {
    let sks = [SecretKey::from_u64(31), SecretKey::from_u64(32)];
    let msgs: [&[u8]; 2] = [b"alpha", b"beta"];
    let sigs: Vec<SignatureVt> = sks
        .iter()
        .zip(msgs.iter())
        .map(|(sk, m)| SignatureVt::new(sk, m).unwrap())
        .collect();
    let agg = AggregateSignatureVt::from_signatures(&sigs);
    let data: Vec<(PublicKeyVt, Vec<u8>)> = sks
        .iter()
        .zip(msgs.iter())
        .map(|(sk, m)| (PublicKeyVt::from_secret_key(sk), m.to_vec()))
        .collect();
    assert!(bool::from(agg.verify(&data)));
    assert!(bool::from(agg.verify_sequential(&data)));

    let mut tampered = data.clone();
    tampered[1].1 = b"tampered".to_vec();
    assert!(!bool::from(agg.verify(&tampered)));
    assert!(!bool::from(agg.verify_sequential(&tampered)));
}

#[test]
fn strategies_agree_on_every_vector() {
    let parties = signers(&[41, 42, 43]);
    let msgs: [&[u8]; 3] = [b"m1", b"m2", b"m3"];
    let sigs: Vec<Signature> = parties
        .iter()
        .zip(msgs.iter())
        .map(|((sk, _), m)| Signature::new(sk, m).unwrap())
        .collect();
    let good = AggregateSignature::from_signatures(&sigs);
    let data: Vec<(PublicKey, Vec<u8>)> = parties
        .iter()
        .zip(msgs.iter())
        .map(|((_, pk), m)| (*pk, m.to_vec()))
        .collect();

    let mut tampered = data.clone();
    tampered[0].1 = b"not m1".to_vec();
    let mut bad_key = data.clone();
    bad_key[1].0 = PublicKey::default();
    let wrong_agg = AggregateSignature::from_signatures(&sigs[..2]);
    let empty_agg = AggregateSignature::from_signatures(&[]);
    let empty_data: Vec<(PublicKey, Vec<u8>)> = Vec::new();

    for agg in [good, wrong_agg, empty_agg] {
        for d in [&data, &tampered, &bad_key, &empty_data] {
            assert_eq!(
                bool::from(agg.verify(d)),
                bool::from(agg.verify_sequential(d))
            );
        }
    }
}

#[test]
fn invalid_key_in_list_rejects_without_pairing() {
    let parties = signers(&[51, 52]);
    let msgs: [&[u8]; 2] = [b"m1", b"m2"];
    let sigs: Vec<Signature> = parties
        .iter()
        .zip(msgs.iter())
        .map(|((sk, _), m)| Signature::new(sk, m).unwrap())
        .collect();
    let agg = AggregateSignature::from_signatures(&sigs);
    let data = vec![
        (parties[0].1, msgs[0].to_vec()),
        (PublicKey::default(), msgs[1].to_vec()),
    ];
    assert!(!bool::from(agg.verify(&data)));
    assert!(!bool::from(agg.verify_sequential(&data)));
}

#[test]
fn three_signers_scenario() {
    // Three signers sign three distinct messages; the aggregate verifies
    // against the matching list, fails once one message is replaced, and an
    // empty aggregate never verifies a non-empty list.
    let s1 = SecretKey::from_u64(101);
    let s2 = SecretKey::from_u64(102);
    let s3 = SecretKey::from_u64(103);
    let sig1 = Signature::new(&s1, b"m1").unwrap();
    let sig2 = Signature::new(&s2, b"m2").unwrap();
    let sig3 = Signature::new(&s3, b"m3").unwrap();
    let agg = AggregateSignature::from_signatures(&[sig1, sig2, sig3]);
    let data = vec![
        (PublicKey::from_secret_key(&s1), b"m1".to_vec()),
        (PublicKey::from_secret_key(&s2), b"m2".to_vec()),
        (PublicKey::from_secret_key(&s3), b"m3".to_vec()),
    ];
    assert!(bool::from(agg.verify(&data)));

    let mut tampered = data.clone();
    tampered[1].1 = b"tampered".to_vec();
    assert!(!bool::from(agg.verify(&tampered)));

    let empty = AggregateSignature::from_signatures(&[]);
    assert!(bool::from(empty.is_invalid()));
    assert!(!bool::from(empty.verify(&data)));
}

#[test]
fn empty_combination_is_identity_not_error() {
    let empty_multi_key = MultiPublicKey::from_public_keys(&[]);
    assert!(bool::from(empty_multi_key.ct_eq(&MultiPublicKey::default())));
    let empty_multi_sig = MultiSignature::from_signatures(&[]);
    assert!(bool::from(empty_multi_sig.is_invalid()));
}
