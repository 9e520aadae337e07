//! Fixed-window rate limiting per client and route.
use vstd::prelude::*;

use crate::routing::RateLimitProfile;
use crate::store::Keyed;

verus! {

/// How much of its window a key has used. Times are nanoseconds on a monotonic clock.
#[derive(Clone, Copy)]
pub struct RateBucket {
    pub used: u32,
    pub window_until: u64,
}

/// The length of a profile's window in nanoseconds.
pub open spec fn window_nanos(p: RateLimitProfile) -> int {
    p.window_secs * 1_000_000_000
}

/// The bucket in force at `now`: the stored one while its window is open, else a
/// fresh one whose window starts now.
pub open spec fn refreshed(b: Option<RateBucket>, p: RateLimitProfile, now: u64) -> RateBucket {
    match b {
        Some(x) if now < x.window_until => x,
        _ => RateBucket { used: 0, window_until: (now + window_nanos(p)) as u64 },
    }
}

/// Whole seconds until the window ends, at least one.
pub open spec fn retry_secs(until: u64, now: u64) -> u64 {
    let s = (until - now) / 1_000_000_000;
    if s >= 1 {
        s as u64
    } else {
        1
    }
}

/// One request against a key's bucket: the bucket afterwards, and `Some` seconds to
/// wait when the request is refused.
pub open spec fn rate_step(b: Option<RateBucket>, p: RateLimitProfile, now: u64) -> (
    RateBucket,
    Option<u64>,
) {
    let c = refreshed(b, p, now);
    if c.used >= p.limit {
        (c, Some(retry_secs(c.window_until, now)))
    } else {
        (RateBucket { used: (c.used + 1) as u32, window_until: c.window_until }, None)
    }
}

/// How many of the requests made at `times`, one after another, are let through.
pub open spec fn admitted(b: Option<RateBucket>, p: RateLimitProfile, times: Seq<u64>) -> nat
    decreases times.len(),
{
    if times.len() == 0 {
        0
    } else {
        let (nb, r) = rate_step(b, p, times[0]);
        (if r is None {
            1nat
        } else {
            0nat
        }) + admitted(Some(nb), p, times.drop_first())
    }
}

/// Request counts per key.
pub struct RateLimiter {
    buckets: Keyed<RateBucket>,
}

impl RateLimiter {
    pub closed spec fn wf(&self) -> bool {
        self.buckets.wf()
    }

    /// The bucket of each key.
    pub closed spec fn buckets(&self) -> Map<Seq<char>, RateBucket> {
        self.buckets.map()
    }

    /// The bucket of `key`, if it has one.
    pub open spec fn bucket_of(&self, key: Seq<char>) -> Option<RateBucket> {
        if self.buckets().contains_key(key) {
            Some(self.buckets()[key])
        } else {
            None
        }
    }

    /// A limiter that has seen no request.
    pub fn new() -> (r: RateLimiter)
        ensures
            r.wf(),
            r.buckets() == Map::<Seq<char>, RateBucket>::empty(),
    {
        RateLimiter { buckets: Keyed::new() }
    }

    /// Counts a request under `key` at time `now` (nanoseconds); `None` lets it
    /// through, `Some(s)` refuses it and says to retry after `s` seconds.
    pub fn check_and_record(&mut self, key: String, profile: RateLimitProfile, now: u64) -> (r:
        Option<u64>)
        requires
            old(self).wf(),
            now + window_nanos(profile) <= u64::MAX,
        ensures
            final(self).wf(),
            final(self).buckets() == old(self).buckets().insert(
                key@,
                rate_step(old(self).bucket_of(key@), profile, now).0,
            ),
            r == rate_step(old(self).bucket_of(key@), profile, now).1,
    {
        let window = profile.window_secs * 1_000_000_000;
        let current = match self.buckets.get(key.as_str()) {
            Some(b) if now < b.window_until => *b,
            _ => RateBucket { used: 0, window_until: now + window },
        };
        if current.used >= profile.limit {
            let secs = (current.window_until - now) / 1_000_000_000;
            let retry = if secs >= 1 {
                secs
            } else {
                1
            };
            self.buckets.insert(key, current);
            return Some(retry);
        }
        let next = RateBucket { used: current.used + 1, window_until: current.window_until };
        self.buckets.insert(key, next);
        None
    }
}

/// Within one open window, a key is let through at most as many times as its
/// limit leaves: requests made before the window ends never exceed the limit.
pub proof fn law_window_budget(b: RateBucket, p: RateLimitProfile, times: Seq<u64>)
    requires
        forall|i: int| 0 <= i < times.len() ==> #[trigger] times[i] < b.window_until,
    ensures
        admitted(Some(b), p, times) <= (if b.used >= p.limit {
            0
        } else {
            p.limit - b.used
        }),
    decreases times.len(),
{
    if times.len() > 0 {
        let (nb, r) = rate_step(Some(b), p, times[0]);
        assert forall|i: int| 0 <= i < times.drop_first().len() implies #[trigger] times.drop_first()[i]
            < nb.window_until by {
            assert(times.drop_first()[i] == times[i + 1]);
        }
        law_window_budget(nb, p, times.drop_first());
    }
}

/// A key seen for the first time is let through at most `limit` times in the
/// window its first request opens.
pub proof fn law_new_key_budget(p: RateLimitProfile, times: Seq<u64>)
    requires
        times.len() > 0,
        times[0] + window_nanos(p) <= u64::MAX,
        forall|i: int| 0 <= i < times.len() ==> #[trigger] times[i] < times[0] + window_nanos(p),
    ensures
        admitted(None, p, times) <= p.limit,
{
    let (nb, r) = rate_step(None, p, times[0]);
    assert(nb.window_until == times[0] + window_nanos(p));
    assert forall|i: int| 0 <= i < times.drop_first().len() implies #[trigger] times.drop_first()[i]
        < nb.window_until by {
        assert(times.drop_first()[i] == times[i + 1]);
    }
    law_window_budget(nb, p, times.drop_first());
}

/// Once a key's window has ended (or for a key never seen), the next request
/// opens a fresh window and is let through, whenever the limit allows any.
pub proof fn law_window_resets(b: Option<RateBucket>, p: RateLimitProfile, now: u64)
    requires
        p.limit > 0,
        now + window_nanos(p) <= u64::MAX,
        b matches Some(x) ==> now >= x.window_until,
    ensures
        rate_step(b, p, now) == (
            RateBucket { used: 1, window_until: (now + window_nanos(p)) as u64 },
            None::<u64>,
        ),
{
}

/// A refused request uses none of the budget: its bucket stays as it was, and the
/// caller is told to wait at least a second.
pub proof fn law_refusal_keeps_bucket(b: RateBucket, p: RateLimitProfile, now: u64)
    requires
        now < b.window_until,
        b.used >= p.limit,
    ensures
        rate_step(Some(b), p, now).0 == b,
        rate_step(Some(b), p, now).1 matches Some(s) && s >= 1,
{
}

/// The answers to requests for one key at `times`, starting from bucket `b`.
pub open spec fn rate_answers(b: Option<RateBucket>, p: RateLimitProfile, times: Seq<u64>) -> Seq<
    Option<u64>,
>
    decreases times.len(),
{
    if times.len() == 0 {
        Seq::empty()
    } else {
        let (nb, r) = rate_step(b, p, times[0]);
        seq![r] + rate_answers(Some(nb), p, times.drop_first())
    }
}

/// The longest wait a refusal names: the window in seconds, and at least one.
pub open spec fn max_retry(p: RateLimitProfile) -> int {
    if p.window_secs >= 1 {
        p.window_secs as int
    } else {
        1
    }
}

proof fn lemma_answers_in_window(b: RateBucket, p: RateLimitProfile, start: u64, times: Seq<u64>)
    requires
        b.window_until == start + window_nanos(p),
        forall|i: int| 0 <= i < times.len() ==> start <= #[trigger] times[i] < b.window_until,
    ensures
        rate_answers(Some(b), p, times).len() == times.len(),
        forall|i: int|
            0 <= i < times.len() ==> (#[trigger] rate_answers(Some(b), p, times)[i] is None <==> b.used
                + i < p.limit),
        forall|i: int|
            0 <= i < times.len() ==> (#[trigger] rate_answers(Some(b), p, times)[i] matches Some(s)
                ==> 1 <= s <= max_retry(p)),
    decreases times.len(),
{
    if times.len() > 0 {
        let now = times[0];
        let (nb, r) = rate_step(Some(b), p, now);
        let rest = times.drop_first();
        assert forall|i: int| 0 <= i < rest.len() implies start <= #[trigger] rest[i] < nb.window_until by {
            assert(rest[i] == times[i + 1]);
        }
        lemma_answers_in_window(nb, p, start, rest);
        let a = rate_answers(Some(b), p, times);
        let ra = rate_answers(Some(nb), p, rest);
        assert(a =~= seq![r] + ra);
        if b.used >= p.limit {
            let d = (b.window_until - now) as int;
            assert(d <= p.window_secs * 1_000_000_000);
            assert(d / 1_000_000_000 <= p.window_secs) by (nonlinear_arith)
                requires
                    0 <= d <= p.window_secs * 1_000_000_000,
            ;
        }
        assert forall|i: int| 0 <= i < times.len() implies (#[trigger] a[i] is None <==> b.used + i
            < p.limit) by {
            if i > 0 {
                assert(a[i] == ra[i - 1]);
            }
        }
        assert forall|i: int| 0 <= i < times.len() implies (#[trigger] a[i] matches Some(s) ==> 1
            <= s <= max_retry(p)) by {
            if i > 0 {
                assert(a[i] == ra[i - 1]);
            }
        }
    }
}

/// Within the window its first request opens, a key new to the limiter has its
/// first `limit` requests let through and every later one refused, each refusal
/// naming a wait of at least one second and at most the window.
pub proof fn law_new_key_admission(p: RateLimitProfile, times: Seq<u64>)
    requires
        times.len() > 0,
        times[0] + window_nanos(p) <= u64::MAX,
        forall|i: int| 0 <= i < times.len() ==> times[0] <= #[trigger] times[i] < times[0] + window_nanos(p),
    ensures
        rate_answers(None, p, times).len() == times.len(),
        forall|i: int| 0 <= i < times.len() ==> (#[trigger] rate_answers(None, p, times)[i] is None <==> i < p.limit),
        forall|i: int|
            0 <= i < times.len() ==> (#[trigger] rate_answers(None, p, times)[i] matches Some(s) ==> 1 <= s
                <= max_retry(p)),
{
    let b0 = RateBucket { used: 0, window_until: (times[0] + window_nanos(p)) as u64 };
    assert(rate_step(None, p, times[0]) == rate_step(Some(b0), p, times[0]));
    assert(rate_answers(None, p, times) =~= rate_answers(Some(b0), p, times));
    lemma_answers_in_window(b0, p, times[0], times);
}

/// A request for one key leaves every other key's bucket, and so every later
/// answer for that key, as it was.
pub proof fn law_other_keys_untouched(
    before: RateLimiter,
    after: RateLimiter,
    key: Seq<char>,
    other: Seq<char>,
    p: RateLimitProfile,
    now: u64,
)
    requires
        key != other,
        after.buckets() == before.buckets().insert(key, rate_step(before.bucket_of(key), p, now).0),
    ensures
        after.bucket_of(other) == before.bucket_of(other),
{
}

} // verus!
