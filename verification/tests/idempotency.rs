use tether::headers::Headers;
use tether::idempotency::{IdempotencyDecision, IdempotencyStore};

const SEC: u64 = 1_000_000_000;

fn is_allow(d: &IdempotencyDecision) -> bool {
    matches!(d, IdempotencyDecision::Allow)
}

#[test]
fn first_request_runs_and_repeat_is_in_progress() {
    let mut store = IdempotencyStore::new();
    assert!(is_allow(&store.start_or_replay("s:/api/events:k1", "fp", 0)));
    assert!(matches!(store.start_or_replay("s:/api/events:k1", "fp", SEC), IdempotencyDecision::InProgress));
    assert!(matches!(store.start_or_replay("s:/api/events:k1", "other", SEC), IdempotencyDecision::InProgress));
    assert!(is_allow(&store.start_or_replay("s:/api/events:k2", "fp", SEC)));
}

#[test]
fn completed_request_replays_and_conflicts() {
    let mut store = IdempotencyStore::new();
    assert!(is_allow(&store.start_or_replay("key", "fp", 0)));
    let mut headers = Headers::new();
    headers.append("content-type".to_string(), b"application/json".to_vec());
    store.complete("key", "fp".to_string(), 201, headers, b"{\"ok\":true}".to_vec(), SEC);
    match store.start_or_replay("key", "fp", 2 * SEC) {
        IdempotencyDecision::Replay(r) => {
            assert_eq!(r.status, 201);
            assert_eq!(r.body, b"{\"ok\":true}".to_vec());
            assert_eq!(r.fingerprint, "fp");
            assert_eq!(r.expires_at, 601 * SEC);
            assert_eq!(r.headers.get("content-type"), Some(&b"application/json".to_vec()));
        }
        _ => panic!("expected a replay"),
    }
    assert!(matches!(store.start_or_replay("key", "different", 3 * SEC), IdempotencyDecision::Conflict));
    match store.start_or_replay("key", "fp", 4 * SEC) {
        IdempotencyDecision::Replay(r) => assert_eq!((r.status, r.body), (201, b"{\"ok\":true}".to_vec())),
        _ => panic!("expected the replay again"),
    }
}

#[test]
fn keys_expire_after_ten_minutes() {
    let mut store = IdempotencyStore::new();
    assert!(is_allow(&store.start_or_replay("key", "fp", 0)));
    store.complete("key", "fp".to_string(), 200, Headers::new(), Vec::new(), 0);
    assert!(matches!(store.start_or_replay("key", "fp", 600 * SEC - 1), IdempotencyDecision::Replay(_)));
    assert!(is_allow(&store.start_or_replay("key", "other", 600 * SEC)));
    assert!(matches!(store.start_or_replay("key", "other", 600 * SEC + 1), IdempotencyDecision::InProgress));
}

#[test]
fn in_progress_keys_expire_too() {
    let mut store = IdempotencyStore::new();
    assert!(is_allow(&store.start_or_replay("key", "fp", 0)));
    store.prune_expired(600 * SEC);
    assert!(is_allow(&store.start_or_replay("key", "fp", 600 * SEC)));
}
