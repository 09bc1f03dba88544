//! Pure policy decisions and small wire types.

use agraphon::manager::{admit_announcement, is_fresh, SessionId, SessionManagerConfig};
use agraphon::session::{decode_message, encode_message};

#[test]
fn test_freshness_window_boundaries() {
    let now: u128 = 1_000_000;
    let max_age: u128 = 60_000;
    let max_future: u128 = 5_000;

    // exactly at the age boundary: accepted; one below: rejected
    assert!(is_fresh(now - max_age, now, max_age, max_future));
    assert!(!is_fresh(now - max_age - 1, now, max_age, max_future));

    // exactly at the future boundary: accepted; one above: rejected
    assert!(is_fresh(now + max_future, now, max_age, max_future));
    assert!(!is_fresh(now + max_future + 1, now, max_age, max_future));
}

#[test]
fn test_announcement_admission_is_monotonic() {
    let now: u128 = 1_000_000;
    // without a stored request, a fresh timestamp is admitted
    assert!(admit_announcement(now, None, now, 60_000, 5_000));
    // an equal timestamp is a replay and is dropped
    assert!(!admit_announcement(now, Some(now), now, 60_000, 5_000));
    // only a strictly newer one is admitted
    assert!(admit_announcement(now + 1, Some(now), now, 60_000, 5_000));
    assert!(!admit_announcement(now - 1, Some(now), now, 60_000, 5_000));
}

#[test]
fn test_session_id_roundtrip() {
    let bytes = vec![9u8; 32];
    let id = SessionId::from_bytes(bytes.clone());
    assert_eq!(id.as_bytes(), &bytes[..]);

    let random1 = SessionId::new();
    let random2 = SessionId::new();
    assert_eq!(random1.as_bytes().len(), 32);
    assert_ne!(random1.as_bytes(), random2.as_bytes());
}

#[test]
fn test_message_codec_roundtrip() {
    let seeker_next = vec![3u8; 32];
    for contents in [&b""[..], &b"keep-alive"[..], &[0x42u8; 1000][..]] {
        let encoded = encode_message(123456789, &seeker_next, contents);
        let decoded = decode_message(&encoded).expect("an encoded message decodes");
        assert_eq!(decoded.timestamp, 123456789);
        assert_eq!(decoded.seeker_next, seeker_next);
        assert_eq!(decoded.contents, contents);
    }
}

#[test]
fn test_message_codec_rejects_trailing_bytes() {
    let mut encoded = encode_message(1, &vec![3u8; 32], b"x");
    encoded.push(0);
    assert!(decode_message(&encoded).is_none());
    assert!(decode_message(b"short").is_none());
}

#[test]
fn test_default_configuration_values() {
    let cfg = SessionManagerConfig::new_default();
    assert_eq!(cfg.max_incoming_announcement_age_millis, 604_800_000);
    assert_eq!(cfg.max_incoming_announcement_future_millis, 60_000);
    assert_eq!(cfg.max_incoming_message_age_millis, 604_800_000);
    assert_eq!(cfg.max_incoming_message_future_millis, 60_000);
    assert_eq!(cfg.max_session_inactivity_millis, 604_800_000);
    assert_eq!(cfg.keep_alive_interval_millis, 86_400_000);
    assert_eq!(cfg.max_session_lag_length, 10_000);
}
