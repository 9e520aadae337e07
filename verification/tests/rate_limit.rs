use tether::rate_limit::RateLimiter;
use tether::routing::RateLimitProfile;

const SEC: u64 = 1_000_000_000;

#[test]
fn limit_is_enforced_within_window() {
    let mut limiter = RateLimiter::new();
    let profile = RateLimitProfile { limit: 2, window_secs: 60 };
    assert_eq!(limiter.check_and_record("k".to_string(), profile, 0), None);
    assert_eq!(limiter.check_and_record("k".to_string(), profile, SEC), None);
    assert_eq!(limiter.check_and_record("k".to_string(), profile, 2 * SEC), Some(58));
    assert_eq!(limiter.check_and_record("k".to_string(), profile, 59 * SEC + SEC / 2), Some(1));
}

#[test]
fn other_keys_have_their_own_budget() {
    let mut limiter = RateLimiter::new();
    let profile = RateLimitProfile { limit: 1, window_secs: 60 };
    assert_eq!(limiter.check_and_record("a".to_string(), profile, 0), None);
    assert_eq!(limiter.check_and_record("a".to_string(), profile, 1), Some(59));
    assert_eq!(limiter.check_and_record("b".to_string(), profile, 1), None);
}

#[test]
fn window_resets_after_it_ends() {
    let mut limiter = RateLimiter::new();
    let profile = RateLimitProfile { limit: 1, window_secs: 60 };
    assert_eq!(limiter.check_and_record("k".to_string(), profile, 10 * SEC), None);
    assert_eq!(limiter.check_and_record("k".to_string(), profile, 69 * SEC), Some(1));
    assert_eq!(limiter.check_and_record("k".to_string(), profile, 70 * SEC), None);
    assert_eq!(limiter.check_and_record("k".to_string(), profile, 71 * SEC), Some(59));
}

#[test]
fn zero_limit_refuses_with_one_second() {
    let mut limiter = RateLimiter::new();
    let profile = RateLimitProfile { limit: 0, window_secs: 0 };
    assert_eq!(limiter.check_and_record("k".to_string(), profile, 5), Some(1));
}

#[test]
fn new_key_gets_exactly_its_limit_in_one_window() {
    let mut limiter = RateLimiter::new();
    let profile = RateLimitProfile { limit: 3, window_secs: 10 };
    let answers: Vec<Option<u64>> = (0..6u64)
        .map(|i| limiter.check_and_record("k".to_string(), profile, 100 * SEC + i * SEC))
        .collect();
    assert_eq!(&answers[..3], &[None, None, None]);
    for (i, a) in answers[3..].iter().enumerate() {
        let s = a.expect("refused");
        assert!(1 <= s && s <= 10, "answer {} was {}", i + 3, s);
    }
    assert_eq!(limiter.check_and_record("other".to_string(), profile, 105 * SEC), None);
    assert!(limiter.check_and_record("k".to_string(), profile, 106 * SEC).is_some());
}
