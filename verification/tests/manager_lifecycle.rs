//! The session manager: lifecycle, admission, lag and persistence.

use agraphon::aead;
use agraphon::auth::{derive_keys_from_static_root_secret, StaticRootSecret};
use agraphon::manager::{SessionManager, SessionManagerConfig, SessionStatus};

fn test_config() -> SessionManagerConfig {
    SessionManagerConfig {
        max_incoming_announcement_age_millis: 60_000,
        max_incoming_announcement_future_millis: 5_000,
        max_incoming_message_age_millis: 300_000,
        max_incoming_message_future_millis: 5_000,
        max_session_inactivity_millis: 3_600_000,
        keep_alive_interval_millis: 60_000,
        max_session_lag_length: 100,
    }
}

fn test_keys(
    seed: u8,
) -> (
    agraphon::auth::UserPublicKeys,
    agraphon::auth::UserSecretKeys,
) {
    derive_keys_from_static_root_secret(&StaticRootSecret::from_bytes(vec![seed; 32]))
}

#[test]
fn test_session_manager_creation() {
    let manager = SessionManager::new(test_config());
    assert_eq!(manager.peer_list().len(), 0);
}

#[test]
fn test_two_party_roundtrip_from_passphrases() {
    // both identities derived from their passphrases, end to end
    let (alice_pk, alice_sk) =
        derive_keys_from_static_root_secret(&StaticRootSecret::from_passphrase(b"alice"));
    let (bob_pk, bob_sk) =
        derive_keys_from_static_root_secret(&StaticRootSecret::from_passphrase(b"bob"));

    let mut alice_manager = SessionManager::new(test_config());
    let mut bob_manager = SessionManager::new(test_config());

    let alice_announcement = alice_manager
        .establish_outgoing_session(&bob_pk, &alice_pk, &alice_sk)
        .unwrap();
    let bob_announcement = bob_manager
        .establish_outgoing_session(&alice_pk, &bob_pk, &bob_sk)
        .unwrap();

    bob_manager.feed_incoming_announcement(&alice_announcement, &bob_pk, &bob_sk);
    alice_manager.feed_incoming_announcement(&bob_announcement, &alice_pk, &alice_sk);

    let alice_id = alice_pk.derive_id();
    let bob_id = bob_pk.derive_id();
    assert!(matches!(
        alice_manager.peer_session_status(&bob_id),
        SessionStatus::Active
    ));
    assert!(matches!(
        bob_manager.peer_session_status(&alice_id),
        SessionStatus::Active
    ));

    let send_output = alice_manager.send_message(&bob_id, b"Hello Bob!").unwrap();
    let bob_seekers = bob_manager.get_message_board_read_keys();
    assert!(bob_seekers.contains(&send_output.seeker));

    let received = bob_manager
        .feed_incoming_message_board_read(&send_output.seeker, &send_output.data, &bob_sk)
        .unwrap();
    assert_eq!(received.message, b"Hello Bob!");
}

#[test]
fn test_peer_list() {
    let mut manager = SessionManager::new(test_config());
    let (our_pk, our_sk) = test_keys(1);
    let (peer1_pk, _) = test_keys(2);
    let (peer2_pk, _) = test_keys(3);

    manager
        .establish_outgoing_session(&peer1_pk, &our_pk, &our_sk)
        .unwrap();
    manager
        .establish_outgoing_session(&peer2_pk, &our_pk, &our_sk)
        .unwrap();

    let peer_list = manager.peer_list();
    assert_eq!(peer_list.len(), 2);
    assert!(peer_list.contains(&peer1_pk.derive_id()));
    assert!(peer_list.contains(&peer2_pk.derive_id()));
}

#[test]
fn test_peer_discard() {
    let mut manager = SessionManager::new(test_config());
    let (our_pk, our_sk) = test_keys(1);
    let (peer_pk, _) = test_keys(2);
    let peer_id = peer_pk.derive_id();

    manager
        .establish_outgoing_session(&peer_pk, &our_pk, &our_sk)
        .unwrap();
    assert_eq!(manager.peer_list().len(), 1);
    assert!(matches!(
        manager.peer_session_status(&peer_id),
        SessionStatus::SelfRequested
    ));

    manager.peer_discard(&peer_id);
    assert_eq!(manager.peer_list().len(), 0);
    assert!(matches!(
        manager.peer_session_status(&peer_id),
        SessionStatus::UnknownPeer
    ));
}

#[test]
fn test_session_status_peer_requested() {
    let (our_pk, our_sk) = test_keys(1);
    let (peer_pk, peer_sk) = test_keys(2);
    let peer_id = peer_pk.derive_id();

    let mut manager = SessionManager::new(test_config());
    let mut peer_manager = SessionManager::new(test_config());
    let peer_announcement = peer_manager
        .establish_outgoing_session(&our_pk, &peer_pk, &peer_sk)
        .unwrap();

    manager.feed_incoming_announcement(&peer_announcement, &our_pk, &our_sk);
    assert!(matches!(
        manager.peer_session_status(&peer_id),
        SessionStatus::PeerRequested
    ));
}

#[test]
fn test_session_status_unknown_peer() {
    let manager = SessionManager::new(test_config());
    let (peer_pk, _) = test_keys(2);
    assert!(matches!(
        manager.peer_session_status(&peer_pk.derive_id()),
        SessionStatus::UnknownPeer
    ));
}

#[test]
fn test_send_message_no_session() {
    let mut manager = SessionManager::new(test_config());
    let (peer_pk, _) = test_keys(2);
    assert!(manager.send_message(&peer_pk.derive_id(), b"test").is_none());
}

#[test]
fn test_invalid_announcement_garbage_data() {
    let mut manager = SessionManager::new(test_config());
    let (our_pk, our_sk) = test_keys(1);
    manager.feed_incoming_announcement(b"this is not a valid announcement", &our_pk, &our_sk);
    assert_eq!(manager.peer_list().len(), 0);
}

#[test]
fn test_invalid_announcement_wrong_recipient() {
    let mut manager = SessionManager::new(test_config());
    let (our_pk, our_sk) = test_keys(1);
    let (peer_pk, peer_sk) = test_keys(2);
    let (other_pk, _) = test_keys(3);

    // announcement encapsulated to a third party's static key
    let mut peer_manager = SessionManager::new(test_config());
    let announcement = peer_manager
        .establish_outgoing_session(&other_pk, &peer_pk, &peer_sk)
        .unwrap();

    manager.feed_incoming_announcement(&announcement, &our_pk, &our_sk);
    assert_eq!(manager.peer_list().len(), 0);
}

#[test]
fn test_replayed_announcement_does_not_change_state() {
    let (our_pk, our_sk) = test_keys(1);
    let (peer_pk, peer_sk) = test_keys(2);
    let peer_id = peer_pk.derive_id();

    let mut manager = SessionManager::new(test_config());
    let mut peer_manager = SessionManager::new(test_config());
    let announcement = peer_manager
        .establish_outgoing_session(&our_pk, &peer_pk, &peer_sk)
        .unwrap();

    manager.feed_incoming_announcement(&announcement, &our_pk, &our_sk);
    assert_eq!(manager.peer_list().len(), 1);
    assert!(matches!(
        manager.peer_session_status(&peer_id),
        SessionStatus::PeerRequested
    ));

    // the same bytes again: the timestamp is not strictly newer, so the
    // replay is dropped
    manager.feed_incoming_announcement(&announcement, &our_pk, &our_sk);
    assert_eq!(manager.peer_list().len(), 1);
    assert!(matches!(
        manager.peer_session_status(&peer_id),
        SessionStatus::PeerRequested
    ));
}

#[test]
fn test_message_exchange() {
    let (alice_pk, alice_sk) = test_keys(1);
    let (bob_pk, bob_sk) = test_keys(2);

    let mut alice_manager = SessionManager::new(test_config());
    let mut bob_manager = SessionManager::new(test_config());

    let alice_announcement = alice_manager
        .establish_outgoing_session(&bob_pk, &alice_pk, &alice_sk)
        .unwrap();
    let bob_announcement = bob_manager
        .establish_outgoing_session(&alice_pk, &bob_pk, &bob_sk)
        .unwrap();
    bob_manager.feed_incoming_announcement(&alice_announcement, &bob_pk, &bob_sk);
    alice_manager.feed_incoming_announcement(&bob_announcement, &alice_pk, &alice_sk);

    let bob_id = bob_pk.derive_id();
    let alice_id = alice_pk.derive_id();

    let output1 = alice_manager.send_message(&bob_id, b"Hello Bob!").unwrap();
    let received1 = bob_manager
        .feed_incoming_message_board_read(&output1.seeker, &output1.data, &bob_sk)
        .unwrap();
    assert_eq!(received1.message, b"Hello Bob!");

    let output2 = bob_manager.send_message(&alice_id, b"Hi Alice!").unwrap();
    let received2 = alice_manager
        .feed_incoming_message_board_read(&output2.seeker, &output2.data, &alice_sk)
        .unwrap();
    assert_eq!(received2.message, b"Hi Alice!");
}

#[test]
fn test_session_status_saturated() {
    let mut config = test_config();
    config.max_session_lag_length = 2;

    let (alice_pk, alice_sk) = test_keys(1);
    let (bob_pk, bob_sk) = test_keys(2);

    let mut alice_manager = SessionManager::new(config);
    let mut bob_manager = SessionManager::new(test_config());

    let alice_announcement = alice_manager
        .establish_outgoing_session(&bob_pk, &alice_pk, &alice_sk)
        .unwrap();
    let bob_announcement = bob_manager
        .establish_outgoing_session(&alice_pk, &bob_pk, &bob_sk)
        .unwrap();
    bob_manager.feed_incoming_announcement(&alice_announcement, &bob_pk, &bob_sk);
    alice_manager.feed_incoming_announcement(&bob_announcement, &alice_pk, &alice_sk);

    let bob_id = bob_pk.derive_id();
    let alice_id = alice_pk.derive_id();

    // the lag limit is two: the first two sends go out, the third is refused
    let output1 = alice_manager.send_message(&bob_id, b"msg1").unwrap();
    assert!(alice_manager.send_message(&bob_id, b"msg2").is_some());
    assert!(matches!(
        alice_manager.peer_session_status(&bob_id),
        SessionStatus::Saturated
    ));
    assert!(alice_manager.send_message(&bob_id, b"msg3").is_none());

    // one accepted incoming message acknowledges the lag and sending resumes
    bob_manager
        .feed_incoming_message_board_read(&output1.seeker, &output1.data, &bob_sk)
        .unwrap();
    let reply = bob_manager.send_message(&alice_id, b"ack").unwrap();
    alice_manager
        .feed_incoming_message_board_read(&reply.seeker, &reply.data, &alice_sk)
        .unwrap();
    assert!(matches!(
        alice_manager.peer_session_status(&bob_id),
        SessionStatus::Active
    ));
    assert!(alice_manager.send_message(&bob_id, b"msg4").is_some());
}

#[test]
fn test_feed_incoming_message_wrong_seeker() {
    let mut manager = SessionManager::new(test_config());
    let (_our_pk, our_sk) = test_keys(1);
    let result =
        manager.feed_incoming_message_board_read(b"wrong_seeker", b"some encrypted data", &our_sk);
    assert!(result.is_none());
}

#[test]
fn test_refresh_with_no_sessions() {
    let mut manager = SessionManager::new(test_config());
    assert_eq!(manager.refresh().len(), 0);
}

#[test]
fn test_persistence_roundtrip() {
    let (alice_pk, alice_sk) = test_keys(1);
    let (bob_pk, bob_sk) = test_keys(2);

    let mut alice_manager = SessionManager::new(test_config());
    let mut bob_manager = SessionManager::new(test_config());

    let alice_announcement = alice_manager
        .establish_outgoing_session(&bob_pk, &alice_pk, &alice_sk)
        .unwrap();
    let bob_announcement = bob_manager
        .establish_outgoing_session(&alice_pk, &bob_pk, &bob_sk)
        .unwrap();
    bob_manager.feed_incoming_announcement(&alice_announcement, &bob_pk, &bob_sk);
    alice_manager.feed_incoming_announcement(&bob_announcement, &alice_pk, &alice_sk);

    let key = aead::Key::from_bytes(vec![5u8; aead::KEY_SIZE]);
    let blob = alice_manager.to_encrypted_blob(&key).unwrap();

    // the wrong key is rejected outright
    let wrong_key = aead::Key::from_bytes(vec![6u8; aead::KEY_SIZE]);
    assert!(SessionManager::from_encrypted_blob(&blob, &wrong_key).is_none());

    // the restored manager behaves like the one that was sealed
    let mut restored = SessionManager::from_encrypted_blob(&blob, &key).unwrap();
    let bob_id = bob_pk.derive_id();
    assert_eq!(restored.peer_list().len(), alice_manager.peer_list().len());
    assert!(matches!(
        restored.peer_session_status(&bob_id),
        SessionStatus::Active
    ));

    let send_output = restored.send_message(&bob_id, b"from the restored state").unwrap();
    let received = bob_manager
        .feed_incoming_message_board_read(&send_output.seeker, &send_output.data, &bob_sk)
        .unwrap();
    assert_eq!(received.message, b"from the restored state");
}

#[test]
fn test_persistence_rejects_tampered_blob() {
    let manager = SessionManager::new(test_config());
    let key = aead::Key::from_bytes(vec![5u8; aead::KEY_SIZE]);
    let mut blob = manager.to_encrypted_blob(&key).unwrap();
    let last = blob.len() - 1;
    blob[last] ^= 1;
    assert!(SessionManager::from_encrypted_blob(&blob, &key).is_none());
}

#[test]
fn test_corrupted_message_closes_session() {
    let (alice_pk, alice_sk) = test_keys(1);
    let (bob_pk, bob_sk) = test_keys(2);

    let mut alice_manager = SessionManager::new(test_config());
    let mut bob_manager = SessionManager::new(test_config());

    let alice_announcement = alice_manager
        .establish_outgoing_session(&bob_pk, &alice_pk, &alice_sk)
        .unwrap();
    let bob_announcement = bob_manager
        .establish_outgoing_session(&alice_pk, &bob_pk, &bob_sk)
        .unwrap();
    bob_manager.feed_incoming_announcement(&alice_announcement, &bob_pk, &bob_sk);
    alice_manager.feed_incoming_announcement(&bob_announcement, &alice_pk, &alice_sk);

    let bob_seekers = bob_manager.get_message_board_read_keys();
    assert_eq!(bob_seekers.len(), 1);

    // an expected seeker whose bytes cannot be consumed tears the session
    // down
    let result = bob_manager.feed_incoming_message_board_read(
        &bob_seekers[0],
        b"corrupted message data",
        &bob_sk,
    );
    assert!(result.is_none());
    let alice_id = alice_pk.derive_id();
    assert!(!matches!(
        bob_manager.peer_session_status(&alice_id),
        SessionStatus::Active
    ));
}

#[test]
fn test_message_board_read_keys() {
    let (alice_pk, alice_sk) = test_keys(1);
    let (bob_pk, bob_sk) = test_keys(2);
    let (carol_pk, carol_sk) = test_keys(3);

    let mut alice_manager = SessionManager::new(test_config());
    let mut bob_manager = SessionManager::new(test_config());
    let mut carol_manager = SessionManager::new(test_config());

    let alice_to_bob = alice_manager
        .establish_outgoing_session(&bob_pk, &alice_pk, &alice_sk)
        .unwrap();
    let alice_to_carol = alice_manager
        .establish_outgoing_session(&carol_pk, &alice_pk, &alice_sk)
        .unwrap();
    let bob_to_alice = bob_manager
        .establish_outgoing_session(&alice_pk, &bob_pk, &bob_sk)
        .unwrap();
    let carol_to_alice = carol_manager
        .establish_outgoing_session(&alice_pk, &carol_pk, &carol_sk)
        .unwrap();

    bob_manager.feed_incoming_announcement(&alice_to_bob, &bob_pk, &bob_sk);
    carol_manager.feed_incoming_announcement(&alice_to_carol, &carol_pk, &carol_sk);
    alice_manager.feed_incoming_announcement(&bob_to_alice, &alice_pk, &alice_sk);
    alice_manager.feed_incoming_announcement(&carol_to_alice, &alice_pk, &alice_sk);

    // one read key per active session
    assert_eq!(alice_manager.get_message_board_read_keys().len(), 2);
}

#[test]
fn test_peer_list_with_multiple_states() {
    let (alice_pk, alice_sk) = test_keys(1);
    let (bob_pk, _bob_sk) = test_keys(2);
    let (carol_pk, carol_sk) = test_keys(3);

    let mut alice_manager = SessionManager::new(test_config());

    // Alice asks Bob; Carol asks Alice
    alice_manager
        .establish_outgoing_session(&bob_pk, &alice_pk, &alice_sk)
        .unwrap();
    let mut carol_manager = SessionManager::new(test_config());
    let carol_announcement = carol_manager
        .establish_outgoing_session(&alice_pk, &carol_pk, &carol_sk)
        .unwrap();
    alice_manager.feed_incoming_announcement(&carol_announcement, &alice_pk, &alice_sk);

    assert_eq!(alice_manager.peer_list().len(), 2);
    assert!(matches!(
        alice_manager.peer_session_status(&bob_pk.derive_id()),
        SessionStatus::SelfRequested
    ));
    assert!(matches!(
        alice_manager.peer_session_status(&carol_pk.derive_id()),
        SessionStatus::PeerRequested
    ));
}

#[test]
fn test_multiple_announcements_from_same_peer() {
    let (alice_pk, alice_sk) = test_keys(1);
    let (bob_pk, bob_sk) = test_keys(2);

    let mut alice_manager = SessionManager::new(test_config());
    let mut bob_manager = SessionManager::new(test_config());

    let bob_announcement1 = bob_manager
        .establish_outgoing_session(&alice_pk, &bob_pk, &bob_sk)
        .unwrap();
    let bob_announcement2 = bob_manager
        .establish_outgoing_session(&alice_pk, &bob_pk, &bob_sk)
        .unwrap();

    alice_manager.feed_incoming_announcement(&bob_announcement1, &alice_pk, &alice_sk);
    alice_manager.feed_incoming_announcement(&bob_announcement2, &alice_pk, &alice_sk);

    let bob_id = bob_pk.derive_id();
    assert!(matches!(
        alice_manager.peer_session_status(&bob_id),
        SessionStatus::PeerRequested
    ));
    assert_eq!(alice_manager.peer_list().len(), 1);
}
