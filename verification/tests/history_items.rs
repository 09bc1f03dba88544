//! History bootstrap items and the identity signature scheme.

use agraphon::dsa;
use agraphon::history::{HistoryItemPeer, HistoryItemSelf, KeySource};
use agraphon::kem;
use agraphon::secondary;

fn keypair(seed: u8) -> (kem::SecretKey, kem::PublicKey) {
    kem::generate_key_pair(&vec![seed; kem::KEY_GENERATION_RANDOMNESS_SIZE])
}

#[test]
fn test_history_item_self_initial() {
    let (_, pk) = keypair(1);
    let item = HistoryItemSelf::initial(&pk);
    assert_eq!(item.local_id, 0);
    assert!(matches!(item.sk_next, KeySource::Static));
}

#[test]
fn test_history_item_peer_initial() {
    let (_, pk) = keypair(2);
    let pk_bytes = pk.as_bytes().to_vec();
    let item = HistoryItemPeer::initial(pk);
    assert_eq!(item.our_parent_id, 0);
    assert_eq!(item.pk_next.as_bytes(), &pk_bytes[..]);
}

#[test]
fn test_sign_verify_roundtrip() {
    let (signing_key, verification_key) =
        dsa::generate_key_pair(&vec![1u8; dsa::KEY_GENERATION_RANDOMNESS_SIZE]);

    let message = b"Hello, world!";
    let signature = dsa::sign(
        &signing_key,
        message,
        b"",
        &vec![0u8; dsa::SIGNING_RANDOMNESS_SIZE],
    )
    .expect("signing succeeds");

    assert!(dsa::verify(&verification_key, message, b"", &signature));
    assert!(!dsa::verify(&verification_key, b"Goodbye, world!", b"", &signature));
}

#[test]
fn test_secondary_sign_verify_roundtrip() {
    let secret = vec![7u8; secondary::SECONDARY_SECRET_KEY_SIZE];
    let public = secondary::sec_public_key(&secret);
    let msg = b"board write";
    let sig = secondary::sec_sign(&secret, msg);

    assert!(secondary::sec_verify(&public, msg, &sig));
    assert!(!secondary::sec_verify(&public, b"other bytes", &sig));

    let other_public = secondary::sec_public_key(&vec![8u8; 32]);
    assert!(!secondary::sec_verify(&other_public, msg, &sig));
}

#[test]
fn test_hash32_deterministic() {
    let h1 = secondary::hash32(b"some data");
    let h2 = secondary::hash32(b"some data");
    let h3 = secondary::hash32(b"other data");
    assert_eq!(h1, h2);
    assert_ne!(h1, h3);
    assert_eq!(h1.len(), secondary::HASH_SIZE);
}
