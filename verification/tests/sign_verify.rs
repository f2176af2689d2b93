//! Single-signer signing and verification, for both curve-role variants.

use bls_sig::PublicKey;
use bls_sig::PublicKeyVt;
use bls_sig::SecretKey;
use bls_sig::Signature;
use bls_sig::SignatureVt;

#[test]
fn sign_then_verify_accepts() {
    let sk = SecretKey::from_u64(7);
    let pk = PublicKey::from_secret_key(&sk);
    let sig = Signature::new(&sk, b"hello world").expect("nonzero key signs");
    assert!(bool::from(sig.verify(pk, b"hello world")));
}

#[test]
fn sign_then_verify_accepts_vt() {
    let sk = SecretKey::from_u64(7);
    let pk = PublicKeyVt::from_secret_key(&sk);
    let sig = SignatureVt::new(&sk, b"hello world").expect("nonzero key signs");
    assert!(bool::from(sig.verify(pk, b"hello world")));
}

#[test]
fn wrong_message_rejects() {
    let sk = SecretKey::from_u64(7);
    let pk = PublicKey::from_secret_key(&sk);
    let sig = Signature::new(&sk, b"hello world").unwrap();
    assert!(!bool::from(sig.verify(pk, b"hello mars")));
}

#[test]
fn wrong_key_rejects() {
    let sk1 = SecretKey::from_u64(7);
    let sk2 = SecretKey::from_u64(8);
    let pk2 = PublicKey::from_secret_key(&sk2);
    let sig1 = Signature::new(&sk1, b"message one").unwrap();
    assert!(!bool::from(sig1.verify(pk2, b"message one")));
}

#[test]
fn swapped_pairing_rejects() {
    let sk1 = SecretKey::from_u64(11);
    let sk2 = SecretKey::from_u64(13);
    let pk1 = PublicKey::from_secret_key(&sk1);
    let pk2 = PublicKey::from_secret_key(&sk2);
    let sig1 = Signature::new(&sk1, b"first message").unwrap();
    let sig2 = Signature::new(&sk2, b"second message").unwrap();
    // Signer 1's signature against signer 2's key, and the other way round.
    assert!(!bool::from(sig1.verify(pk2, b"first message")));
    assert!(!bool::from(sig2.verify(pk1, b"second message")));
    assert!(!bool::from(sig1.verify(pk2, b"second message")));
}

#[test]
fn wrong_key_rejects_vt() {
    let sk1 = SecretKey::from_u64(7);
    let sk2 = SecretKey::from_u64(8);
    let pk2 = PublicKeyVt::from_secret_key(&sk2);
    let sig1 = SignatureVt::new(&sk1, b"message one").unwrap();
    assert!(!bool::from(sig1.verify(pk2, b"message one")));
}

#[test]
fn zero_secret_key_cannot_sign() {
    let sk = SecretKey::from_u64(0);
    assert!(Signature::new(&sk, b"anything").is_none());
    assert!(SignatureVt::new(&sk, b"anything").is_none());
}

#[test]
fn identity_key_rejects_everything() {
    let sk = SecretKey::from_u64(7);
    let sig = Signature::new(&sk, b"msg").unwrap();
    let identity_key = PublicKey::default();
    assert!(bool::from(identity_key.is_invalid()));
    assert!(!bool::from(identity_key.is_valid()));
    assert!(!bool::from(sig.verify(identity_key, b"msg")));
}

#[test]
fn identity_signature_rejects_everything() {
    let sk = SecretKey::from_u64(7);
    let pk = PublicKey::from_secret_key(&sk);
    let identity_sig = Signature::default();
    assert!(bool::from(identity_sig.is_invalid()));
    assert!(!bool::from(identity_sig.verify(pk, b"msg")));
}

#[test]
fn identity_rejects_everything_vt() {
    let sk = SecretKey::from_u64(7);
    let sig = SignatureVt::new(&sk, b"msg").unwrap();
    let pk = PublicKeyVt::from_secret_key(&sk);
    assert!(!bool::from(sig.verify(PublicKeyVt::default(), b"msg")));
    assert!(!bool::from(SignatureVt::default().verify(pk, b"msg")));
}

#[test]
fn valid_key_passes_validity_check() {
    let sk = SecretKey::from_u64(42);
    let pk = PublicKey::from_secret_key(&sk);
    assert!(bool::from(pk.is_valid()));
    assert!(!bool::from(pk.is_invalid()));
    let pkv = PublicKeyVt::from_secret_key(&sk);
    assert!(bool::from(pkv.is_valid()));
    assert!(!bool::from(pkv.is_invalid()));
}

#[test]
fn conditional_select_picks_by_choice() {
    let a = PublicKey::from_secret_key(&SecretKey::from_u64(1));
    let b = PublicKey::from_secret_key(&SecretKey::from_u64(2));
    let zero = subtle::Choice::from(0u8);
    let one = subtle::Choice::from(1u8);
    assert!(bool::from(
        PublicKey::conditional_select(&a, &b, zero).ct_eq(&a)
    ));
    assert!(bool::from(
        PublicKey::conditional_select(&a, &b, one).ct_eq(&b)
    ));
    let sa = Signature::new(&SecretKey::from_u64(1), b"m").unwrap();
    let sb = Signature::new(&SecretKey::from_u64(2), b"m").unwrap();
    assert!(bool::from(
        Signature::conditional_select(&sa, &sb, zero).ct_eq(&sa)
    ));
    assert!(bool::from(
        Signature::conditional_select(&sa, &sb, one).ct_eq(&sb)
    ));
}

#[test]
fn ct_eq_distinguishes_keys() {
    let a = PublicKey::from_secret_key(&SecretKey::from_u64(1));
    let b = PublicKey::from_secret_key(&SecretKey::from_u64(2));
    assert!(bool::from(a.ct_eq(&a)));
    assert!(!bool::from(a.ct_eq(&b)));
}

#[test]
fn same_secret_same_signature() {
    let sk = SecretKey::from_u64(99);
    let s1 = Signature::new(&sk, b"deterministic").unwrap();
    let s2 = Signature::new(&sk, b"deterministic").unwrap();
    assert!(bool::from(s1.ct_eq(&s2)));
}
