//! Identity layer: user ids, root secrets, key derivation and AuthBlob.

use agraphon::auth::{
    derive_keys_from_static_root_secret, AuthBlob, StaticRootSecret, UserId, USER_ID_SIZE,
};

#[test]
fn test_user_id_from_bytes() {
    let bytes = vec![42u8; USER_ID_SIZE];
    let user_id = UserId::from_bytes(bytes.clone());
    assert_eq!(user_id.as_bytes(), &bytes[..]);
}

#[test]
fn test_user_id_as_ref() {
    let bytes = vec![42u8; USER_ID_SIZE];
    let user_id = UserId::from_bytes(bytes.clone());
    let as_ref: &[u8] = user_id.as_ref();
    assert_eq!(as_ref, &bytes[..]);
}

#[test]
fn test_user_id_equality() {
    let user_id1 = UserId::from_bytes(vec![1u8; USER_ID_SIZE]);
    let user_id2 = UserId::from_bytes(vec![1u8; USER_ID_SIZE]);
    let user_id3 = UserId::from_bytes(vec![2u8; USER_ID_SIZE]);

    assert_eq!(user_id1, user_id2);
    assert_ne!(user_id1, user_id3);
}

#[test]
fn test_static_root_secret_from_passphrase() {
    let passphrase = b"test passphrase 123";
    let root_secret = StaticRootSecret::from_passphrase(passphrase);
    assert_eq!(root_secret.as_slice().len(), 32);
}

#[test]
fn test_static_root_secret_deterministic() {
    let passphrase = b"deterministic test";
    let root_secret1 = StaticRootSecret::from_passphrase(passphrase);
    let root_secret2 = StaticRootSecret::from_passphrase(passphrase);
    assert_eq!(root_secret1.as_slice(), root_secret2.as_slice());
}

#[test]
fn test_static_root_secret_different_passphrases() {
    let root_secret1 = StaticRootSecret::from_passphrase(b"passphrase1");
    let root_secret2 = StaticRootSecret::from_passphrase(b"passphrase2");
    assert_ne!(root_secret1.as_slice(), root_secret2.as_slice());
}

#[test]
fn test_static_root_secret_from_bytes() {
    let bytes = vec![99u8; 32];
    let root_secret = StaticRootSecret::from_bytes(bytes.clone());
    assert_eq!(root_secret.as_slice(), &bytes[..]);
}

#[test]
fn test_derive_keys_deterministic() {
    let root_secret = StaticRootSecret::from_bytes(vec![7u8; 32]);
    let (pub_keys1, _) = derive_keys_from_static_root_secret(&root_secret);
    let (pub_keys2, _) = derive_keys_from_static_root_secret(&root_secret);

    assert_eq!(
        pub_keys1.dsa_verification_key.as_bytes(),
        pub_keys2.dsa_verification_key.as_bytes()
    );
    assert_eq!(
        pub_keys1.kem_public_key.as_bytes(),
        pub_keys2.kem_public_key.as_bytes()
    );
    assert_eq!(pub_keys1.secondary_public_key, pub_keys2.secondary_public_key);
}

#[test]
fn test_user_id_unique_for_different_keys() {
    let (pub_keys1, _) = derive_keys_from_static_root_secret(&StaticRootSecret::from_bytes(
        vec![1u8; 32],
    ));
    let (pub_keys2, _) = derive_keys_from_static_root_secret(&StaticRootSecret::from_bytes(
        vec![2u8; 32],
    ));

    let user_id1 = pub_keys1.derive_id();
    let user_id2 = pub_keys2.derive_id();
    assert_ne!(user_id1, user_id2);
}

#[test]
fn test_auth_blob_creation_and_verification() {
    let root = StaticRootSecret::from_bytes(vec![11u8; 32]);
    let (public_keys, secret_keys) = derive_keys_from_static_root_secret(&root);

    let public_payload = b"timestamp:1234567890".to_vec();
    let secret_payload = b"shared_auth_key_from_agraphon";

    let auth_blob = AuthBlob::new(
        public_keys,
        &secret_keys,
        public_payload.clone(),
        secret_payload,
    )
    .expect("signing should succeed");

    assert!(auth_blob.verify(secret_payload));
    assert_eq!(auth_blob.public_payload(), &public_payload[..]);
}

#[test]
fn test_auth_blob_verification_fails_wrong_secret() {
    let root = StaticRootSecret::from_bytes(vec![12u8; 32]);
    let (public_keys, secret_keys) = derive_keys_from_static_root_secret(&root);

    let public_payload = b"timestamp:1234567890".to_vec();
    let correct_secret = b"correct_auth_key";
    let wrong_secret = b"wrong_auth_key!!";

    let auth_blob = AuthBlob::new(public_keys, &secret_keys, public_payload, correct_secret)
        .expect("signing should succeed");

    assert!(!auth_blob.verify(wrong_secret));
    assert!(auth_blob.verify(correct_secret));
}

#[test]
fn test_auth_blob_empty_payloads() {
    let root = StaticRootSecret::from_bytes(vec![13u8; 32]);
    let (public_keys, secret_keys) = derive_keys_from_static_root_secret(&root);

    let auth_blob =
        AuthBlob::new(public_keys, &secret_keys, vec![], b"").expect("signing should succeed");

    assert!(auth_blob.verify(b""));
    assert!(!auth_blob.verify(b"something"));
}
