//! The key-derivation graph and the cipher layers.

use agraphon::aead;
use agraphon::cipher;
use agraphon::kem;
use agraphon::ratchet_kdf::{
    AnnouncementAuthKdf, MessageIntegrityKdf, MessageRootKdf, Role, SeekerKdf, StaticKdf,
};

fn test_kem_public_key(seed: u8) -> kem::PublicKey {
    let (_, pk) = kem::generate_key_pair(&vec![seed; kem::KEY_GENERATION_RANDOMNESS_SIZE]);
    pk
}

#[test]
fn test_role_to_bytes() {
    assert_eq!(Role::Initiator.as_bytes(), [0]);
    assert_eq!(Role::Responder.as_bytes(), [1]);
}

#[test]
fn test_role_opposite() {
    assert_eq!(Role::Initiator.opposite(), Role::Responder);
    assert_eq!(Role::Responder.opposite(), Role::Initiator);
    assert_eq!(Role::Initiator.opposite().opposite(), Role::Initiator);
    assert_eq!(Role::Responder.opposite().opposite(), Role::Responder);
}

#[test]
fn test_seeker_kdf_deterministic() {
    let self_seed = [1u8; 32];
    let peer_seed = [2u8; 32];

    let kdf1 = SeekerKdf::new(&self_seed, &peer_seed);
    let kdf2 = SeekerKdf::new(&self_seed, &peer_seed);

    assert_eq!(kdf1.seeker, kdf2.seeker);
}

#[test]
fn test_seeker_kdf_commutative() {
    let alice_seed = [1u8; 32];
    let bob_seed = [2u8; 32];

    let alice_kdf = SeekerKdf::new(&alice_seed, &bob_seed);
    let bob_kdf = SeekerKdf::new(&bob_seed, &alice_seed);

    // the order of the seeds matters: swapping them names the opposite
    // direction of the conversation
    assert_ne!(alice_kdf.seeker, bob_kdf.seeker);
}

#[test]
fn test_static_kdf_deterministic() {
    let pk = test_kem_public_key(3);
    let kdf1 = StaticKdf::new(&pk);
    let kdf2 = StaticKdf::new(&pk);
    assert_eq!(kdf1.mk_next, kdf2.mk_next);
    assert_eq!(kdf1.seeker_next, kdf2.seeker_next);
}

#[test]
fn test_static_kdf_different_keys() {
    let kdf1 = StaticKdf::new(&test_kem_public_key(4));
    let kdf2 = StaticKdf::new(&test_kem_public_key(5));
    assert_ne!(kdf1.mk_next, kdf2.mk_next);
    assert_ne!(kdf1.seeker_next, kdf2.seeker_next);
}

#[test]
fn test_auth_kdf_deterministic() {
    let auth_pre_key = [42u8; 32];
    let pk_next = test_kem_public_key(6);

    let kdf1 = AnnouncementAuthKdf::new(&auth_pre_key, &pk_next);
    let kdf2 = AnnouncementAuthKdf::new(&auth_pre_key, &pk_next);

    assert_eq!(kdf1.auth_key, kdf2.auth_key);
}

#[test]
fn test_auth_kdf_different_pre_key() {
    let pk_next = test_kem_public_key(7);

    let kdf1 = AnnouncementAuthKdf::new(&[1u8; 32], &pk_next);
    let kdf2 = AnnouncementAuthKdf::new(&[2u8; 32], &pk_next);

    assert_ne!(kdf1.auth_key, kdf2.auth_key);
}

#[test]
fn test_message_integrity_kdf_deterministic() {
    let integrity_seed = [5u8; 32];
    let pk_next = test_kem_public_key(8);
    let payload = b"test payload";

    let kdf1 = MessageIntegrityKdf::new(&integrity_seed, &pk_next, payload);
    let kdf2 = MessageIntegrityKdf::new(&integrity_seed, &pk_next, payload);

    assert_eq!(kdf1.mk_next, kdf2.mk_next);
    assert_eq!(kdf1.integrity_key, kdf2.integrity_key);
    assert_eq!(kdf1.seeker_next, kdf2.seeker_next);
}

#[test]
fn test_message_integrity_kdf_different_payload() {
    let integrity_seed = [5u8; 32];
    let pk_next = test_kem_public_key(9);

    let kdf1 = MessageIntegrityKdf::new(&integrity_seed, &pk_next, b"payload1");
    let kdf2 = MessageIntegrityKdf::new(&integrity_seed, &pk_next, b"payload2");

    assert_ne!(kdf1.integrity_key, kdf2.integrity_key);
}

#[test]
fn test_message_root_kdf_role_separation() {
    let pk = test_kem_public_key(10);
    let (ct, ss) = kem::encapsulate(&pk, &vec![1u8; kem::ENCAPSULATION_RANDOMNESS_SIZE]);

    let as_initiator = MessageRootKdf::new(&[1u8; 32], &[2u8; 32], &ss, &ct, Role::Initiator);
    let as_responder = MessageRootKdf::new(&[1u8; 32], &[2u8; 32], &ss, &ct, Role::Responder);

    assert_ne!(as_initiator.integrity_seed, as_responder.integrity_seed);
}

#[test]
fn test_kem_encapsulation_roundtrip() {
    let (sk, pk) = kem::generate_key_pair(&vec![1u8; kem::KEY_GENERATION_RANDOMNESS_SIZE]);
    let (ct, ss1) = kem::encapsulate(&pk, &vec![2u8; kem::ENCAPSULATION_RANDOMNESS_SIZE]);
    let ss2 = kem::decapsulate(&sk, &ct);
    assert_eq!(ss1.as_bytes(), ss2.as_bytes());
}

#[test]
fn test_encrypt_decrypt_roundtrip() {
    let key = cipher::Key::from_bytes(vec![42u8; cipher::KEY_SIZE]);
    let nonce = cipher::Nonce::from_bytes(vec![1u8; cipher::NONCE_SIZE]);
    let original = b"Hello, world! This is a test message.";
    let mut buffer = original.to_vec();

    cipher::encrypt(&key, &nonce, &mut buffer);
    assert_ne!(&buffer[..], &original[..]);

    cipher::decrypt(&key, &nonce, &mut buffer);
    assert_eq!(&buffer[..], &original[..]);
}

#[test]
fn test_cipher_roundtrip_any_length() {
    let key = cipher::Key::from_bytes(vec![9u8; cipher::KEY_SIZE]);
    let nonce = cipher::Nonce::from_bytes(vec![8u8; cipher::NONCE_SIZE]);
    for len in [0usize, 1, 15, 16, 17, 1000] {
        let original = vec![0x5au8; len];
        let mut buffer = original.clone();
        cipher::encrypt(&key, &nonce, &mut buffer);
        cipher::decrypt(&key, &nonce, &mut buffer);
        assert_eq!(buffer, original);
    }
}

#[test]
fn test_aead_encrypt_decrypt_roundtrip() {
    let key = aead::Key::from_bytes(vec![42u8; aead::KEY_SIZE]);
    let nonce = aead::Nonce::from_bytes(vec![1u8; aead::NONCE_SIZE]);
    let plaintext = b"Hello, world! This is a test message.";
    let aad = b"test-metadata";

    let ciphertext = aead::encrypt(&key, &nonce, plaintext, aad);
    assert_ne!(&ciphertext[..], &plaintext[..]);
    assert_eq!(ciphertext.len(), plaintext.len() + aead::TAG_SIZE);

    let decrypted = aead::decrypt(&key, &nonce, &ciphertext, aad).unwrap();
    assert_eq!(&decrypted[..], &plaintext[..]);
}

#[test]
fn test_aead_authentication_failure_wrong_key() {
    let key1 = aead::Key::from_bytes(vec![1u8; aead::KEY_SIZE]);
    let key2 = aead::Key::from_bytes(vec![2u8; aead::KEY_SIZE]);
    let nonce = aead::Nonce::from_bytes(vec![0u8; aead::NONCE_SIZE]);

    let ciphertext = aead::encrypt(&key1, &nonce, b"Secret message", b"metadata");
    assert!(aead::decrypt(&key2, &nonce, &ciphertext, b"metadata").is_none());
}

#[test]
fn test_aead_authentication_failure_wrong_nonce() {
    let key = aead::Key::from_bytes(vec![42u8; aead::KEY_SIZE]);
    let nonce1 = aead::Nonce::from_bytes(vec![1u8; aead::NONCE_SIZE]);
    let nonce2 = aead::Nonce::from_bytes(vec![2u8; aead::NONCE_SIZE]);

    let ciphertext = aead::encrypt(&key, &nonce1, b"Secret message", b"metadata");
    assert!(aead::decrypt(&key, &nonce2, &ciphertext, b"metadata").is_none());
}

#[test]
fn test_aead_authentication_failure_wrong_aad() {
    let key = aead::Key::from_bytes(vec![42u8; aead::KEY_SIZE]);
    let nonce = aead::Nonce::from_bytes(vec![0u8; aead::NONCE_SIZE]);

    let ciphertext = aead::encrypt(&key, &nonce, b"Secret message", b"metadata1");
    assert!(aead::decrypt(&key, &nonce, &ciphertext, b"metadata2").is_none());
}

#[test]
fn test_aead_authentication_failure_tampered_ciphertext() {
    let key = aead::Key::from_bytes(vec![42u8; aead::KEY_SIZE]);
    let nonce = aead::Nonce::from_bytes(vec![0u8; aead::NONCE_SIZE]);

    let mut ciphertext = aead::encrypt(&key, &nonce, b"Secret message", b"metadata");
    ciphertext[0] ^= 1;
    assert!(aead::decrypt(&key, &nonce, &ciphertext, b"metadata").is_none());
}
