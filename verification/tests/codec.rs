//! The byte codec: round trips for every type, and constant-time rejection of
//! identity and malformed buffers.

use bls_sig::AggregateSignature;
use bls_sig::AggregateSignatureVt;
use bls_sig::MultiPublicKey;
use bls_sig::MultiPublicKeyVt;
use bls_sig::MultiSignature;
use bls_sig::MultiSignatureVt;
use bls_sig::PublicKey;
use bls_sig::PublicKeyVt;
use bls_sig::SecretKey;
use bls_sig::Signature;
use bls_sig::SignatureVt;

#[test]
fn public_key_round_trip() {
    let pk = PublicKey::from_secret_key(&SecretKey::from_u64(5));
    let bytes = pk.to_bytes();
    assert_eq!(bytes.len(), 96);
    let (decoded, present) = PublicKey::from_bytes(&bytes);
    assert!(bool::from(present));
    assert!(bool::from(decoded.ct_eq(&pk)));
}

#[test]
fn signature_round_trip() {
    let sig = Signature::new(&SecretKey::from_u64(5), b"codec").unwrap();
    let bytes = sig.to_bytes();
    assert_eq!(bytes.len(), 48);
    let (decoded, present) = Signature::from_bytes(&bytes);
    assert!(bool::from(present));
    assert!(bool::from(decoded.ct_eq(&sig)));
}

#[test]
fn public_key_vt_round_trip() {
    let pk = PublicKeyVt::from_secret_key(&SecretKey::from_u64(5));
    let bytes = pk.to_bytes();
    assert_eq!(bytes.len(), 48);
    let (decoded, present) = PublicKeyVt::from_bytes(&bytes);
    assert!(bool::from(present));
    assert!(bool::from(decoded.ct_eq(&pk)));
}

#[test]
fn signature_vt_round_trip() {
    let sig = SignatureVt::new(&SecretKey::from_u64(5), b"codec").unwrap();
    let bytes = sig.to_bytes();
    assert_eq!(bytes.len(), 96);
    let (decoded, present) = SignatureVt::from_bytes(&bytes);
    assert!(bool::from(present));
    assert!(bool::from(decoded.ct_eq(&sig)));
}

#[test]
fn multi_types_round_trip() {
    let keys = [
        PublicKey::from_secret_key(&SecretKey::from_u64(2)),
        PublicKey::from_secret_key(&SecretKey::from_u64(3)),
    ];
    let mk = MultiPublicKey::from_public_keys(&keys);
    let (decoded, present) = MultiPublicKey::from_bytes(&mk.to_bytes());
    assert!(bool::from(present));
    assert!(bool::from(decoded.ct_eq(&mk)));

    let sigs = [
        Signature::new(&SecretKey::from_u64(2), b"shared").unwrap(),
        Signature::new(&SecretKey::from_u64(3), b"shared").unwrap(),
    ];
    let ms = MultiSignature::from_signatures(&sigs);
    let (decoded, present) = MultiSignature::from_bytes(&ms.to_bytes());
    assert!(bool::from(present));
    assert!(bool::from(decoded.ct_eq(&ms)));

    let agg = AggregateSignature::from_signatures(&sigs);
    let (decoded, present) = AggregateSignature::from_bytes(&agg.to_bytes());
    assert!(bool::from(present));
    assert!(bool::from(decoded.ct_eq(&agg)));
}

#[test]
fn multi_types_round_trip_vt() {
    let keys = [
        PublicKeyVt::from_secret_key(&SecretKey::from_u64(2)),
        PublicKeyVt::from_secret_key(&SecretKey::from_u64(3)),
    ];
    let mk = MultiPublicKeyVt::from_public_keys(&keys);
    let (decoded, present) = MultiPublicKeyVt::from_bytes(&mk.to_bytes());
    assert!(bool::from(present));
    assert!(bool::from(decoded.ct_eq(&mk)));

    let sigs = [
        SignatureVt::new(&SecretKey::from_u64(2), b"shared").unwrap(),
        SignatureVt::new(&SecretKey::from_u64(3), b"shared").unwrap(),
    ];
    let ms = MultiSignatureVt::from_signatures(&sigs);
    let (decoded, present) = MultiSignatureVt::from_bytes(&ms.to_bytes());
    assert!(bool::from(present));
    assert!(bool::from(decoded.ct_eq(&ms)));

    let agg = AggregateSignatureVt::from_signatures(&sigs);
    let (decoded, present) = AggregateSignatureVt::from_bytes(&agg.to_bytes());
    assert!(bool::from(present));
    assert!(bool::from(decoded.ct_eq(&agg)));
}

#[test]
fn identity_encoding_decodes_as_absent() {
    // The compressed encoding of the group identity is well-formed for the
    // curve library, but this scheme rejects it: an identity key or signature
    // is never valid.
    let identity_pk_bytes = PublicKey::default().to_bytes();
    let (_, present) = PublicKey::from_bytes(&identity_pk_bytes);
    assert!(!bool::from(present));

    let identity_sig_bytes = Signature::default().to_bytes();
    let (_, present) = Signature::from_bytes(&identity_sig_bytes);
    assert!(!bool::from(present));

    let identity_vt_bytes = SignatureVt::default().to_bytes();
    let (_, present) = SignatureVt::from_bytes(&identity_vt_bytes);
    assert!(!bool::from(present));
}

#[test]
fn malformed_buffers_decode_as_absent() {
    let all_ones_48 = [0xffu8; 48];
    let (_, present) = Signature::from_bytes(&all_ones_48);
    assert!(!bool::from(present));
    let (_, present) = PublicKeyVt::from_bytes(&all_ones_48);
    assert!(!bool::from(present));

    let zeros_96 = [0u8; 96];
    let (_, present) = PublicKey::from_bytes(&zeros_96);
    assert!(!bool::from(present));
    let (_, present) = SignatureVt::from_bytes(&zeros_96);
    assert!(!bool::from(present));
}

#[test]
fn tampered_encoding_is_not_the_same_value() {
    let sig = Signature::new(&SecretKey::from_u64(21), b"tamper me").unwrap();
    let mut bytes = sig.to_bytes();
    // Flip one bit of the x-coordinate; the result is either rejected or a
    // different point, never silently the same signature.
    bytes[47] ^= 1;
    let (decoded, present) = Signature::from_bytes(&bytes);
    if bool::from(present) {
        assert!(!bool::from(decoded.ct_eq(&sig)));
    }
}
