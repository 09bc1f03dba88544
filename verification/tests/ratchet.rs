//! The handshake announcement and the ratchet itself.

use agraphon::agraphon::Agraphon;
use agraphon::announcement::{
    IncomingAnnouncement, IncomingAnnouncementPrecursor, OutgoingAnnouncement,
    OutgoingAnnouncementPrecursor,
};
use agraphon::kem;

fn keypair(seed: u8) -> (kem::SecretKey, kem::PublicKey) {
    kem::generate_key_pair(&vec![seed; kem::KEY_GENERATION_RANDOMNESS_SIZE])
}

/// Runs one handshake from `sender` to the holder of `(recipient_sk,
/// recipient_pk)` and returns what both sides hold afterwards.
fn one_announcement(
    recipient_pk: &kem::PublicKey,
    recipient_sk: &kem::SecretKey,
    sender_static_pk: &kem::PublicKey,
    auth_payload: &[u8],
) -> (OutgoingAnnouncement, IncomingAnnouncement, Vec<u8>, Vec<u8>) {
    let precursor = OutgoingAnnouncementPrecursor::new(recipient_pk);
    let sender_auth_key = precursor.auth_key().to_vec();
    let (bytes, outgoing) = precursor.finalize(auth_payload);

    let incoming_pre = IncomingAnnouncementPrecursor::try_from_incoming_announcement_bytes(
        &bytes,
        recipient_pk,
        recipient_sk,
    )
    .expect("announcement must parse");
    assert_eq!(incoming_pre.auth_payload(), auth_payload);
    let receiver_auth_key = incoming_pre.auth_key().to_vec();
    let incoming = incoming_pre
        .finalize(sender_static_pk.duplicate())
        .expect("finalize must succeed");
    (outgoing, incoming, sender_auth_key, receiver_auth_key)
}

/// Both sides of one Alice-to-Bob and one Bob-to-Alice announcement, as
/// ratchet sessions.
fn session_pair() -> (Agraphon, Agraphon, kem::SecretKey, kem::SecretKey) {
    let (alice_sk, alice_pk) = keypair(1);
    let (bob_sk, bob_pk) = keypair(2);

    let (alice_out, alice_in_at_bob, _, _) =
        one_announcement(&bob_pk, &bob_sk, &alice_pk, b"alice auth");
    let (bob_out, bob_in_at_alice, _, _) =
        one_announcement(&alice_pk, &alice_sk, &bob_pk, b"bob auth");

    let alice = Agraphon::from_announcement_pair(alice_out, &bob_in_at_alice)
        .expect("distinct handshake ids");
    let bob = Agraphon::from_announcement_pair(bob_out, &alice_in_at_bob)
        .expect("distinct handshake ids");
    (alice, bob, alice_sk, bob_sk)
}

#[test]
fn test_announcement_roundtrip() {
    let (_alice_sk, alice_pk) = keypair(1);
    let (bob_sk, bob_pk) = keypair(2);

    let (alice_announcement, bob_view, alice_auth_key, bob_auth_key) = one_announcement(
        &bob_pk,
        &bob_sk,
        &alice_pk,
        b"Alice's authentication data",
    );

    // both parties derive the same authentication key from their views
    assert_eq!(alice_auth_key, bob_auth_key);
    // and the same initial ratchet values
    assert_eq!(alice_announcement.mk_next, bob_view.mk_next);
    assert_eq!(alice_announcement.seeker_next, bob_view.seeker_next);
    assert_eq!(alice_announcement.id, bob_view.id);
}

#[test]
fn test_announcement_wrong_key_fails() {
    let (_alice_sk, alice_pk) = keypair(1);
    let (bob_sk, bob_pk) = keypair(2);
    let (eve_sk, _eve_pk) = keypair(3);

    let (_, _, alice_auth_key, bob_auth_key) =
        one_announcement(&bob_pk, &bob_sk, &alice_pk, b"test");
    assert_eq!(alice_auth_key, bob_auth_key);

    // Eve decapsulates with the wrong key, so her derived authentication
    // key cannot match the sender's
    let precursor = OutgoingAnnouncementPrecursor::new(&bob_pk);
    let sender_auth_key = precursor.auth_key().to_vec();
    let (bytes, _) = precursor.finalize(b"test");
    let eve_view = IncomingAnnouncementPrecursor::try_from_incoming_announcement_bytes(
        &bytes, &bob_pk, &eve_sk,
    )
    .expect("parsing itself does not authenticate");
    assert_ne!(eve_view.auth_key(), &sender_auth_key[..]);
}

#[test]
fn test_announcement_too_short_rejected() {
    let (bob_sk, bob_pk) = keypair(2);
    let result = IncomingAnnouncementPrecursor::try_from_incoming_announcement_bytes(
        b"not a valid announcement",
        &bob_pk,
        &bob_sk,
    );
    assert!(result.is_none());
}

#[test]
fn test_announcement_empty_auth_payload() {
    let (_alice_sk, alice_pk) = keypair(1);
    let (bob_sk, bob_pk) = keypair(2);
    let (_, _, alice_auth_key, bob_auth_key) = one_announcement(&bob_pk, &bob_sk, &alice_pk, b"");
    assert_eq!(alice_auth_key, bob_auth_key);
}

#[test]
fn test_session_creation_and_message_exchange() {
    let (mut alice, mut bob, _alice_sk, bob_sk) = session_pair();

    let plaintext = b"Hello, Bob!";
    let ciphertext = alice.send_outgoing_message(plaintext);

    // Alice ratcheted from Bob's announcement item, whose local id is zero
    let decrypted = bob
        .try_feed_incoming_message(0, &bob_sk, &ciphertext)
        .expect("decryption must succeed");
    assert_eq!(&decrypted[..], &plaintext[..]);
}

#[test]
fn test_bidirectional_message_exchange() {
    let (mut alice, mut bob, alice_sk, bob_sk) = session_pair();

    let msg1 = alice.send_outgoing_message(b"Message 1");
    let dec1 = bob.try_feed_incoming_message(0, &bob_sk, &msg1).unwrap();
    assert_eq!(&dec1[..], b"Message 1");

    // Bob replies; he ratchets from Alice's message with local id 1
    let msg2 = bob.send_outgoing_message(b"Reply to message 1");
    let dec2 = alice.try_feed_incoming_message(1, &alice_sk, &msg2).unwrap();
    assert_eq!(&dec2[..], b"Reply to message 1");

    let msg3 = alice.send_outgoing_message(b"Message 3");
    let dec3 = bob.try_feed_incoming_message(1, &bob_sk, &msg3).unwrap();
    assert_eq!(&dec3[..], b"Message 3");
}

#[test]
fn test_lag_length() {
    let (mut alice, _bob, _alice_sk, _bob_sk) = session_pair();

    assert_eq!(alice.lag_length(), 0);
    alice.send_outgoing_message(b"msg1");
    assert_eq!(alice.lag_length(), 1);
    alice.send_outgoing_message(b"msg2");
    assert_eq!(alice.lag_length(), 2);
}

#[test]
fn test_possible_incoming_message_seekers() {
    let (mut alice, _bob, _alice_sk, _bob_sk) = session_pair();

    let seekers = alice.possible_incoming_message_seekers();
    assert_eq!(seekers.len(), 1);
    assert_eq!(seekers[0].0, 0);

    alice.send_outgoing_message(b"msg1");
    alice.send_outgoing_message(b"msg2");

    let seekers = alice.possible_incoming_message_seekers();
    assert_eq!(seekers.len(), 3);
    // most recent first
    assert_eq!(seekers[0].0, 2);
    assert_eq!(seekers[1].0, 1);
    assert_eq!(seekers[2].0, 0);
}

#[test]
fn test_tampered_message_rejected_without_state_change() {
    let (mut alice, mut bob, _alice_sk, bob_sk) = session_pair();

    let mut ciphertext = alice.send_outgoing_message(b"Hello, Bob!");
    let last = ciphertext.len() - 1;
    ciphertext[last] ^= 1;

    assert!(bob.try_feed_incoming_message(0, &bob_sk, &ciphertext).is_none());
    assert_eq!(bob.lag_length(), 0);
}

#[test]
fn test_acknowledgement_prunes_history() {
    let (mut alice, mut bob, alice_sk, bob_sk) = session_pair();

    let msg1 = alice.send_outgoing_message(b"one");
    let msg2 = alice.send_outgoing_message(b"two");
    assert_eq!(alice.possible_incoming_message_seekers().len(), 3);

    // each direction is a chain: Bob consumes the two sends in order
    bob.try_feed_incoming_message(0, &bob_sk, &msg1).unwrap();
    bob.try_feed_incoming_message(0, &bob_sk, &msg2).unwrap();
    let reply = bob.send_outgoing_message(b"ack two");
    // Bob acknowledged Alice's message with local id 2
    alice.try_feed_incoming_message(2, &alice_sk, &reply).unwrap();

    // everything older than the acknowledged parent is gone
    let seekers = alice.possible_incoming_message_seekers();
    assert_eq!(seekers.len(), 1);
    assert_eq!(seekers[0].0, 2);
    assert_eq!(alice.lag_length(), 0);
}

#[test]
fn test_equal_handshake_ids_refused() {
    let (alice_sk, alice_pk) = keypair(1);
    let (bob_sk, bob_pk) = keypair(2);
    let (out_req, _, _, _) = one_announcement(&bob_pk, &bob_sk, &alice_pk, b"x");
    // an incoming view with the same handshake id as our own outgoing one
    let incoming = IncomingAnnouncement {
        pk_peer: alice_pk.duplicate(),
        pk_next: alice_pk.duplicate(),
        mk_next: out_req.mk_next.clone(),
        seeker_next: out_req.seeker_next.clone(),
        id: out_req.id.clone(),
    };
    let _ = alice_sk;
    assert!(Agraphon::from_announcement_pair(out_req, &incoming).is_none());
}

#[test]
fn test_announcement_bytes_accessor() {
    let (_, bob_pk) = keypair(2);
    let precursor = OutgoingAnnouncementPrecursor::new(&bob_pk);
    let (bytes, announcement) = precursor.finalize(b"payload");
    assert_eq!(announcement.announcement_bytes(), &bytes[..]);
}
