//! The session layer: padding, board framing, seeker-signed writes.

use agraphon::auth::{derive_keys_from_static_root_secret, StaticRootSecret};
use agraphon::session::{
    pad_payload, unpad_payload, IncomingInitiationRequest, OutgoingInitiationRequest, Session,
};
use agraphon::PADDING_BLOCK_SIZE;

fn test_keys(
    seed: u8,
) -> (
    agraphon::auth::UserPublicKeys,
    agraphon::auth::UserSecretKeys,
) {
    derive_keys_from_static_root_secret(&StaticRootSecret::from_bytes(vec![seed; 32]))
}

fn session_pair() -> (
    Session,
    Session,
    agraphon::auth::UserSecretKeys,
    agraphon::auth::UserSecretKeys,
) {
    let (alice_pk, alice_sk) = test_keys(1);
    let (bob_pk, bob_sk) = test_keys(2);

    let (alice_announcement, alice_outgoing) =
        OutgoingInitiationRequest::new(&alice_pk, &alice_sk, &bob_pk).expect("signing succeeds");
    let (bob_announcement, bob_outgoing) =
        OutgoingInitiationRequest::new(&bob_pk, &bob_sk, &alice_pk).expect("signing succeeds");

    let bob_incoming_at_alice =
        IncomingInitiationRequest::try_from(&bob_announcement, &alice_pk, &alice_sk)
            .expect("Bob's announcement must authenticate at Alice");
    let alice_incoming_at_bob =
        IncomingInitiationRequest::try_from(&alice_announcement, &bob_pk, &bob_sk)
            .expect("Alice's announcement must authenticate at Bob");

    let alice_session =
        Session::from_initiation_request_pair(&alice_outgoing, &bob_incoming_at_alice)
            .expect("distinct handshake ids");
    let bob_session = Session::from_initiation_request_pair(&bob_outgoing, &alice_incoming_at_bob)
        .expect("distinct handshake ids");
    (alice_session, bob_session, alice_sk, bob_sk)
}

#[test]
fn test_padded_length_is_block_multiple() {
    for len in [0usize, 1, 503, 504, 505, 1000, 10000] {
        let data = vec![7u8; len];
        let padded = pad_payload(&data);
        assert_eq!(padded.len() % PADDING_BLOCK_SIZE, 0);
        let back = unpad_payload(&padded).expect("padded data must unpad");
        assert_eq!(back, data);
    }
}

#[test]
fn test_unpad_rejects_overrunning_prefix() {
    let mut padded = pad_payload(b"hello");
    // claim more content than the buffer holds
    padded[0] = 0xff;
    assert!(unpad_payload(&padded).is_none());
    assert!(unpad_payload(b"short").is_none());
}

#[test]
fn test_incoming_initiation_request_parsing() {
    let (our_pk, our_sk) = test_keys(3);
    let (peer_pk, peer_sk) = test_keys(4);

    let (announcement_bytes, _) =
        OutgoingInitiationRequest::new(&peer_pk, &peer_sk, &our_pk).expect("signing succeeds");

    let incoming_req = IncomingInitiationRequest::try_from(&announcement_bytes, &our_pk, &our_sk)
        .expect("announcement must authenticate");
    assert_eq!(
        incoming_req.origin_public_keys.derive_id(),
        peer_pk.derive_id()
    );
}

#[test]
fn test_incoming_initiation_request_wrong_recipient() {
    let (our_pk, our_sk) = test_keys(3);
    let (peer_pk, peer_sk) = test_keys(4);
    let (wrong_pk, _wrong_sk) = test_keys(5);

    // announcement encapsulated to a third party's static key
    let (announcement_bytes, _) =
        OutgoingInitiationRequest::new(&peer_pk, &peer_sk, &wrong_pk).expect("signing succeeds");

    let incoming_req = IncomingInitiationRequest::try_from(&announcement_bytes, &our_pk, &our_sk);
    assert!(incoming_req.is_none());
}

#[test]
fn test_incoming_initiation_request_invalid_data() {
    let (our_pk, our_sk) = test_keys(3);
    let incoming_req =
        IncomingInitiationRequest::try_from(b"not a valid announcement", &our_pk, &our_sk);
    assert!(incoming_req.is_none());
}

#[test]
fn test_session_send_and_receive_message() {
    let (mut alice_session, mut bob_session, _alice_sk, bob_sk) = session_pair();

    let send_output = alice_session
        .send_outgoing_message(b"Hello Bob!")
        .expect("send succeeds");
    assert!(!send_output.seeker.is_empty());
    assert!(!send_output.data.is_empty());

    // Bob watches exactly that board key
    assert_eq!(bob_session.next_peer_message_seeker(), send_output.seeker);

    let receive_output = bob_session
        .try_feed_incoming_message(&bob_sk, &send_output.seeker, &send_output.data)
        .expect("receive succeeds");
    assert_eq!(receive_output.message, b"Hello Bob!");
}

#[test]
fn test_session_bidirectional_messaging() {
    let (mut alice_session, mut bob_session, alice_sk, bob_sk) = session_pair();

    let output1 = alice_session.send_outgoing_message(b"Hello Bob!").unwrap();
    let received1 = bob_session
        .try_feed_incoming_message(&bob_sk, &output1.seeker, &output1.data)
        .unwrap();
    assert_eq!(received1.message, b"Hello Bob!");

    let output2 = bob_session.send_outgoing_message(b"Hi Alice!").unwrap();
    let received2 = alice_session
        .try_feed_incoming_message(&alice_sk, &output2.seeker, &output2.data)
        .unwrap();
    assert_eq!(received2.message, b"Hi Alice!");

    let output3 = alice_session.send_outgoing_message(b"How are you?").unwrap();
    let received3 = bob_session
        .try_feed_incoming_message(&bob_sk, &output3.seeker, &output3.data)
        .unwrap();
    assert_eq!(received3.message, b"How are you?");
}

#[test]
fn test_session_empty_message() {
    let (mut alice_session, mut bob_session, _alice_sk, bob_sk) = session_pair();

    let send_output = alice_session.send_outgoing_message(b"").unwrap();
    let receive_output = bob_session
        .try_feed_incoming_message(&bob_sk, &send_output.seeker, &send_output.data)
        .unwrap();
    assert!(receive_output.message.is_empty());
}

#[test]
fn test_session_large_message() {
    let (mut alice_session, mut bob_session, _alice_sk, bob_sk) = session_pair();

    let large_content = vec![42u8; 10_000];
    let send_output = alice_session.send_outgoing_message(&large_content).unwrap();

    // the ratchet body is the padded payload plus its fixed framing, so the
    // board blob length is a multiple of the padding block plus framing
    let framing = 1 + 32 + 1 + 64 + 1088 + 1184 + 32;
    assert_eq!((send_output.data.len() - framing) % PADDING_BLOCK_SIZE, 0);

    let receive_output = bob_session
        .try_feed_incoming_message(&bob_sk, &send_output.seeker, &send_output.data)
        .unwrap();
    assert_eq!(receive_output.message, large_content);
}

#[test]
fn test_session_wrong_recipient_cannot_decrypt() {
    let (mut alice_session, _bob_session, _alice_sk, _bob_sk) = session_pair();

    // a different pair of identities forms an unrelated session
    let (carol_pk, carol_sk) = test_keys(6);
    let (dave_pk, dave_sk) = test_keys(7);
    let (carol_bytes, carol_out) =
        OutgoingInitiationRequest::new(&carol_pk, &carol_sk, &dave_pk).unwrap();
    let (dave_bytes, dave_out) =
        OutgoingInitiationRequest::new(&dave_pk, &dave_sk, &carol_pk).unwrap();
    let dave_in_at_carol =
        IncomingInitiationRequest::try_from(&dave_bytes, &carol_pk, &carol_sk).unwrap();
    let carol_in_at_dave =
        IncomingInitiationRequest::try_from(&carol_bytes, &dave_pk, &dave_sk).unwrap();
    let _carol_session =
        Session::from_initiation_request_pair(&carol_out, &dave_in_at_carol).unwrap();
    let mut dave_session =
        Session::from_initiation_request_pair(&dave_out, &carol_in_at_dave).unwrap();

    let send_output = alice_session
        .send_outgoing_message(b"Secret message for Bob")
        .unwrap();
    let eavesdrop =
        dave_session.try_feed_incoming_message(&dave_sk, &send_output.seeker, &send_output.data);
    assert!(eavesdrop.is_none());
}

#[test]
fn test_session_lag_length() {
    let (mut alice_session, _bob_session, _alice_sk, _bob_sk) = session_pair();

    let initial_lag = alice_session.lag_length();
    alice_session.send_outgoing_message(b"msg1").unwrap();
    let lag1 = alice_session.lag_length();
    assert!(lag1 > initial_lag);

    alice_session.send_outgoing_message(b"msg2").unwrap();
    let lag2 = alice_session.lag_length();
    assert!(lag2 > lag1);
}

#[test]
fn test_session_acknowledgments() {
    let (mut alice_session, mut bob_session, alice_sk, bob_sk) = session_pair();

    let output1 = alice_session.send_outgoing_message(b"msg1").unwrap();
    let output2 = alice_session.send_outgoing_message(b"msg2").unwrap();

    let received1 = bob_session
        .try_feed_incoming_message(&bob_sk, &output1.seeker, &output1.data)
        .unwrap();
    assert_eq!(received1.message, b"msg1");
    let received2 = bob_session
        .try_feed_incoming_message(&bob_sk, &output2.seeker, &output2.data)
        .unwrap();
    assert_eq!(received2.message, b"msg2");

    let reply_output = bob_session.send_outgoing_message(b"reply").unwrap();
    let received_reply = alice_session
        .try_feed_incoming_message(&alice_sk, &reply_output.seeker, &reply_output.data)
        .unwrap();
    assert_eq!(received_reply.message, b"reply");

    // Bob's reply ratcheted from the second send, acknowledging everything
    // strictly before it: exactly the first send's board entry
    assert_eq!(received_reply.newly_acknowledged_self_seekers.len(), 1);
    assert_eq!(received_reply.newly_acknowledged_self_seekers[0], output1.seeker);
}

#[test]
fn test_session_tampered_board_write_rejected() {
    let (mut alice_session, mut bob_session, _alice_sk, bob_sk) = session_pair();

    let send_output = alice_session.send_outgoing_message(b"payload").unwrap();
    let mut tampered = send_output.data.clone();
    let last = tampered.len() - 1;
    tampered[last] ^= 1;

    // the board-level signature no longer verifies
    assert!(bob_session
        .try_feed_incoming_message(&bob_sk, &send_output.seeker, &tampered)
        .is_none());
}
