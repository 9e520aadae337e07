//! Idempotency keys: the first request with a key runs, a repeat of the same
//! request replays the stored response, and a different request under the key is
//! refused.
use vstd::prelude::*;

use crate::headers::{copy_bytes, Headers};
use crate::store::{Deadline, Keyed};
use crate::text::str_eq;

verus! {

/// How long a key is remembered: ten minutes, in nanoseconds.
pub open spec fn ttl_nanos() -> int {
    600_000_000_000int
}

/// A stored response, as values.
pub struct ResponseView {
    pub status: u16,
    pub headers: Seq<(Seq<char>, Seq<u8>)>,
    pub body: Seq<u8>,
    pub fingerprint: Seq<char>,
    pub expires_at: u64,
}

/// What the store knows of a key, as values.
pub enum EntryView {
    InProgress { expires_at: u64 },
    Completed { response: ResponseView },
}

/// The answer to a request that carries an idempotency key, as values.
pub enum DecisionView {
    Allow,
    Replay(ResponseView),
    InProgress,
    Conflict,
}

/// A response kept for replay.
pub struct IdempotentResponse {
    pub status: u16,
    pub headers: Headers,
    pub body: Vec<u8>,
    pub fingerprint: String,
    pub expires_at: u64,
}

impl View for IdempotentResponse {
    type V = ResponseView;

    open spec fn view(&self) -> ResponseView {
        ResponseView {
            status: self.status,
            headers: self.headers@,
            body: self.body@,
            fingerprint: self.fingerprint@,
            expires_at: self.expires_at,
        }
    }
}

impl IdempotentResponse {
    /// A copy of the response.
    pub fn copy(&self) -> (r: IdempotentResponse)
        ensures
            r@ == self@,
    {
        IdempotentResponse {
            status: self.status,
            headers: self.headers.copy(),
            body: copy_bytes(&self.body),
            fingerprint: self.fingerprint.clone(),
            expires_at: self.expires_at,
        }
    }
}

/// What the store knows of a key.
pub enum IdempotencyEntry {
    InProgress { expires_at: u64 },
    Completed { response: IdempotentResponse },
}

impl View for IdempotencyEntry {
    type V = EntryView;

    open spec fn view(&self) -> EntryView {
        match self {
            IdempotencyEntry::InProgress { expires_at } => EntryView::InProgress {
                expires_at: *expires_at,
            },
            IdempotencyEntry::Completed { response } => EntryView::Completed {
                response: response@,
            },
        }
    }
}

pub open spec fn entry_deadline(e: EntryView) -> u64 {
    match e {
        EntryView::InProgress { expires_at } => expires_at,
        EntryView::Completed { response } => response.expires_at,
    }
}

impl Deadline for IdempotencyEntry {
    open spec fn deadline(&self) -> u64 {
        entry_deadline(self@)
    }

    fn expires_at(&self) -> (r: u64) {
        match self {
            IdempotencyEntry::InProgress { expires_at } => *expires_at,
            IdempotencyEntry::Completed { response } => response.expires_at,
        }
    }
}

/// The answer to a request that carries an idempotency key.
pub enum IdempotencyDecision {
    Allow,
    Replay(IdempotentResponse),
    InProgress,
    Conflict,
}

impl View for IdempotencyDecision {
    type V = DecisionView;

    open spec fn view(&self) -> DecisionView {
        match self {
            IdempotencyDecision::Allow => DecisionView::Allow,
            IdempotencyDecision::Replay(r) => DecisionView::Replay(r@),
            IdempotencyDecision::InProgress => DecisionView::InProgress,
            IdempotencyDecision::Conflict => DecisionView::Conflict,
        }
    }
}

/// The keys still remembered at `now`.
pub open spec fn pruned(m: Map<Seq<char>, EntryView>, now: u64) -> Map<Seq<char>, EntryView> {
    Map::new(
        |k: Seq<char>| m.contains_key(k) && entry_deadline(m[k]) > now,
        |k: Seq<char>| m[k],
    )
}

/// A request under `key` with `fingerprint` at `now`: the store afterwards and the answer.
pub open spec fn start_spec(m: Map<Seq<char>, EntryView>, key: Seq<char>, fingerprint: Seq<char>, now: u64) -> (
    Map<Seq<char>, EntryView>,
    DecisionView,
) {
    let p = pruned(m, now);
    if p.contains_key(key) {
        match p[key] {
            EntryView::Completed { response } => if response.fingerprint == fingerprint {
                (p, DecisionView::Replay(response))
            } else {
                (p, DecisionView::Conflict)
            },
            EntryView::InProgress { .. } => (p, DecisionView::InProgress),
        }
    } else {
        (
            p.insert(key, EntryView::InProgress { expires_at: (now + ttl_nanos()) as u64 }),
            DecisionView::Allow,
        )
    }
}

/// The store after the response to a request under `key` is kept at `now`.
pub open spec fn complete_spec(
    m: Map<Seq<char>, EntryView>,
    key: Seq<char>,
    fingerprint: Seq<char>,
    status: u16,
    headers: Seq<(Seq<char>, Seq<u8>)>,
    body: Seq<u8>,
    now: u64,
) -> Map<Seq<char>, EntryView> {
    m.insert(
        key,
        EntryView::Completed {
            response: ResponseView {
                status,
                headers,
                body,
                fingerprint,
                expires_at: (now + ttl_nanos()) as u64,
            },
        },
    )
}

/// Idempotency keys and what became of their requests.
pub struct IdempotencyStore {
    entries: Keyed<IdempotencyEntry>,
}

impl IdempotencyStore {
    pub closed spec fn wf(&self) -> bool {
        self.entries.wf()
    }

    /// What the store knows of each key.
    pub closed spec fn state(&self) -> Map<Seq<char>, EntryView> {
        self.entries.map().map_values(|e: IdempotencyEntry| e@)
    }

    /// A store that knows no key.
    pub fn new() -> (r: IdempotencyStore)
        ensures
            r.wf(),
            r.state() == Map::<Seq<char>, EntryView>::empty(),
    {
        let r = IdempotencyStore { entries: Keyed::new() };
        assert(r.state() =~= Map::<Seq<char>, EntryView>::empty());
        r
    }

    /// Forgets every key whose time has passed at `now`.
    pub fn prune_expired(&mut self, now: u64)
        requires
            old(self).wf(),
        ensures
            final(self).wf(),
            final(self).state() == pruned(old(self).state(), now),
    {
        self.entries.prune(now);
        assert(self.state() =~= pruned(old(self).state(), now));
    }

    /// Answers a request under `key` whose body and target give `fingerprint`, at `now`.
    pub fn start_or_replay(&mut self, key: &str, fingerprint: &str, now: u64) -> (r:
        IdempotencyDecision)
        requires
            old(self).wf(),
            now + ttl_nanos() <= u64::MAX,
        ensures
            final(self).wf(),
            final(self).state() == start_spec(old(self).state(), key@, fingerprint@, now).0,
            r@ == start_spec(old(self).state(), key@, fingerprint@, now).1,
    {
        self.prune_expired(now);
        let ghost p = self.state();
        let decision = match self.entries.get(key) {
            Some(IdempotencyEntry::Completed { response }) => {
                if str_eq(response.fingerprint.as_str(), fingerprint) {
                    IdempotencyDecision::Replay(response.copy())
                } else {
                    IdempotencyDecision::Conflict
                }
            },
            Some(IdempotencyEntry::InProgress { .. }) => IdempotencyDecision::InProgress,
            None => {
                self.entries.insert(
                    String::from_str(key),
                    IdempotencyEntry::InProgress { expires_at: now + 600_000_000_000 },
                );
                assert(self.state() =~= p.insert(
                    key@,
                    EntryView::InProgress { expires_at: (now + ttl_nanos()) as u64 },
                ));
                IdempotencyDecision::Allow
            },
        };
        decision
    }

    /// Keeps the response to the request under `key` for replay, from `now` on.
    pub fn complete(
        &mut self,
        key: &str,
        fingerprint: String,
        status: u16,
        headers: Headers,
        body: Vec<u8>,
        now: u64,
    )
        requires
            old(self).wf(),
            now + ttl_nanos() <= u64::MAX,
        ensures
            final(self).wf(),
            final(self).state() == complete_spec(
                old(self).state(),
                key@,
                fingerprint@,
                status,
                headers@,
                body@,
                now,
            ),
    {
        let ghost fp = fingerprint@;
        let ghost hv = headers@;
        let ghost bv = body@;
        let response = IdempotentResponse {
            status,
            headers,
            body,
            fingerprint,
            expires_at: now + 600_000_000_000,
        };
        self.entries.insert(String::from_str(key), IdempotencyEntry::Completed { response });
        assert(self.state() =~= complete_spec(old(self).state(), key@, fp, status, hv, bv, now));
    }
}

/// A repeat of a completed request, while its key is remembered, replays the
/// stored response: same status, headers and body.
pub proof fn law_repeat_replays_response(
    m: Map<Seq<char>, EntryView>,
    key: Seq<char>,
    fingerprint: Seq<char>,
    status: u16,
    headers: Seq<(Seq<char>, Seq<u8>)>,
    body: Seq<u8>,
    done_at: u64,
    later: u64,
)
    requires
        done_at + ttl_nanos() <= u64::MAX,
        later < done_at + ttl_nanos(),
    ensures
        start_spec(complete_spec(m, key, fingerprint, status, headers, body, done_at), key, fingerprint, later).1
            == DecisionView::Replay(
            ResponseView {
                status,
                headers,
                body,
                fingerprint,
                expires_at: (done_at + ttl_nanos()) as u64,
            },
        ),
{
}

/// A replay changes nothing that matters: asked again while the key is still
/// remembered, the store replays the same response.
pub proof fn law_replay_repeats(
    m: Map<Seq<char>, EntryView>,
    key: Seq<char>,
    fingerprint: Seq<char>,
    status: u16,
    headers: Seq<(Seq<char>, Seq<u8>)>,
    body: Seq<u8>,
    done_at: u64,
    later: u64,
    again: u64,
)
    requires
        done_at + ttl_nanos() <= u64::MAX,
        later < done_at + ttl_nanos(),
        again < done_at + ttl_nanos(),
    ensures
        ({
            let c = complete_spec(m, key, fingerprint, status, headers, body, done_at);
            start_spec(start_spec(c, key, fingerprint, later).0, key, fingerprint, again).1
                == DecisionView::Replay(
                ResponseView {
                    status,
                    headers,
                    body,
                    fingerprint,
                    expires_at: (done_at + ttl_nanos()) as u64,
                },
            )
        }),
{
    let c = complete_spec(m, key, fingerprint, status, headers, body, done_at);
    let p = start_spec(c, key, fingerprint, later).0;
    assert(pruned(c, later).contains_key(key));
    assert(p.contains_key(key));
    assert(pruned(p, again).contains_key(key));
}

/// A different request under a remembered key is refused as a conflict.
pub proof fn law_reuse_with_other_request_conflicts(
    m: Map<Seq<char>, EntryView>,
    key: Seq<char>,
    fingerprint: Seq<char>,
    other: Seq<char>,
    status: u16,
    headers: Seq<(Seq<char>, Seq<u8>)>,
    body: Seq<u8>,
    done_at: u64,
    later: u64,
)
    requires
        done_at + ttl_nanos() <= u64::MAX,
        later < done_at + ttl_nanos(),
        other != fingerprint,
    ensures
        start_spec(complete_spec(m, key, fingerprint, status, headers, body, done_at), key, other, later).1
            == DecisionView::Conflict,
{
}

/// While the first request under a key runs, any request under that key is told
/// it is still in progress.
pub proof fn law_second_request_in_progress(
    m: Map<Seq<char>, EntryView>,
    key: Seq<char>,
    first: Seq<char>,
    second: Seq<char>,
    started_at: u64,
    later: u64,
)
    requires
        started_at + ttl_nanos() <= u64::MAX,
        later < started_at + ttl_nanos(),
        start_spec(m, key, first, started_at).1 == DecisionView::Allow,
    ensures
        start_spec(start_spec(m, key, first, started_at).0, key, second, later).1
            == DecisionView::InProgress,
{
}

/// Once its time has passed, a key is free again: the next request under it runs.
pub proof fn law_expired_key_allows(
    m: Map<Seq<char>, EntryView>,
    key: Seq<char>,
    fingerprint: Seq<char>,
    other: Seq<char>,
    status: u16,
    headers: Seq<(Seq<char>, Seq<u8>)>,
    body: Seq<u8>,
    done_at: u64,
    later: u64,
)
    requires
        done_at + ttl_nanos() <= u64::MAX,
        later >= done_at + ttl_nanos(),
    ensures
        start_spec(complete_spec(m, key, fingerprint, status, headers, body, done_at), key, other, later).1
            == DecisionView::Allow,
{
}

/// A key never seen before lets its request run.
pub proof fn law_fresh_key_allows(
    m: Map<Seq<char>, EntryView>,
    key: Seq<char>,
    fingerprint: Seq<char>,
    now: u64,
)
    requires
        !m.contains_key(key),
    ensures
        start_spec(m, key, fingerprint, now).1 == DecisionView::Allow,
{
}

/// A request under one key leaves every other key as it was, but for expiry: a
/// key stays remembered, with the same entry, exactly while its time has not passed.
pub proof fn law_other_keys_kept(
    m: Map<Seq<char>, EntryView>,
    key: Seq<char>,
    fingerprint: Seq<char>,
    now: u64,
    other: Seq<char>,
)
    requires
        other != key,
    ensures
        start_spec(m, key, fingerprint, now).0.contains_key(other) <==> (m.contains_key(other)
            && entry_deadline(m[other]) > now),
        start_spec(m, key, fingerprint, now).0.contains_key(other) ==> start_spec(
            m,
            key,
            fingerprint,
            now,
        ).0[other] == m[other],
{
}

/// Keeping a response under one key leaves every other key exactly as it was.
pub proof fn law_complete_keeps_other_keys(
    m: Map<Seq<char>, EntryView>,
    key: Seq<char>,
    fingerprint: Seq<char>,
    status: u16,
    headers: Seq<(Seq<char>, Seq<u8>)>,
    body: Seq<u8>,
    now: u64,
    other: Seq<char>,
)
    requires
        other != key,
    ensures
        complete_spec(m, key, fingerprint, status, headers, body, now).contains_key(other)
            <==> m.contains_key(other),
        m.contains_key(other) ==> complete_spec(m, key, fingerprint, status, headers, body, now)[other]
            == m[other],
{
}

/// The first request under a key that is not remembered runs, and the key is
/// then held as in progress for ten minutes.
pub proof fn law_new_key_held_in_progress(
    m: Map<Seq<char>, EntryView>,
    key: Seq<char>,
    fingerprint: Seq<char>,
    now: u64,
)
    requires
        !(m.contains_key(key) && entry_deadline(m[key]) > now),
    ensures
        start_spec(m, key, fingerprint, now).1 == DecisionView::Allow,
        start_spec(m, key, fingerprint, now).0.contains_key(key),
        start_spec(m, key, fingerprint, now).0[key] == (EntryView::InProgress {
            expires_at: (now + 600_000_000_000int) as u64,
        }),
{
}

} // verus!
