//! The API security guard: the order in which a request in scope meets the
//! feature switch, the rate limiter, authorization and idempotency, and what is
//! answered when one of them refuses it.
use vstd::prelude::*;
use vstd::utf8::encode_utf8;

use crate::digest::{sha256, sha256_digest};
use crate::flags::{feature_enabled, FeatureFlags};
use crate::headers::{
    authorization_token, authorization_token_of, idempotency_subject, subject_of, with_header,
    Headers,
};
use crate::idempotency::{DecisionView, IdempotencyDecision, ResponseView};
use crate::routing::{api_scope, is_api_scope, policy_for, route_policy, PolicyView, RoutePolicy};
use crate::text::{append_str, decimal, decimal_string, has_prefix, hex_lower, hex_string};

verus! {

/// Why the guard refuses a request.
#[derive(Clone, Copy, PartialEq, Eq, Structural)]
pub enum Refusal {
    FeatureDisabled,
    RateLimited,
    Forbidden,
    KeyReusedWithOtherRequest,
    KeyInProgress,
    UnreadableRequestBody,
    UnreadableResponseBody,
}

/// The HTTP status that answers a refusal.
pub open spec fn refusal_status(r: Refusal) -> u16 {
    match r {
        Refusal::FeatureDisabled => 503,
        Refusal::RateLimited => 429,
        Refusal::Forbidden => 403,
        Refusal::KeyReusedWithOtherRequest => 409,
        Refusal::KeyInProgress => 409,
        Refusal::UnreadableRequestBody => 400,
        Refusal::UnreadableResponseBody => 502,
    }
}

/// The `error` text of the JSON body that answers a refusal.
pub open spec fn refusal_message(r: Refusal) -> Seq<char> {
    match r {
        Refusal::FeatureDisabled => "feature disabled"@,
        Refusal::RateLimited => "rate limit exceeded"@,
        Refusal::Forbidden => "insufficient permissions"@,
        Refusal::KeyReusedWithOtherRequest => "idempotency key was reused with a different request"@,
        Refusal::KeyInProgress => "idempotency key is still processing"@,
        Refusal::UnreadableRequestBody => "unable to read request body for idempotency"@,
        Refusal::UnreadableResponseBody => "unable to cache response body for idempotency"@,
    }
}

impl Refusal {
    /// The HTTP status of the answer.
    pub fn status(&self) -> (r: u16)
        ensures
            r == refusal_status(*self),
    {
        match self {
            Refusal::FeatureDisabled => 503,
            Refusal::RateLimited => 429,
            Refusal::Forbidden => 403,
            Refusal::KeyReusedWithOtherRequest => 409,
            Refusal::KeyInProgress => 409,
            Refusal::UnreadableRequestBody => 400,
            Refusal::UnreadableResponseBody => 502,
        }
    }

    /// The `error` text of the answer.
    pub fn message(&self) -> (r: &'static str)
        ensures
            r@ == refusal_message(*self),
    {
        match self {
            Refusal::FeatureDisabled => "feature disabled",
            Refusal::RateLimited => "rate limit exceeded",
            Refusal::Forbidden => "insufficient permissions",
            Refusal::KeyReusedWithOtherRequest => "idempotency key was reused with a different request",
            Refusal::KeyInProgress => "idempotency key is still processing",
            Refusal::UnreadableRequestBody => "unable to read request body for idempotency",
            Refusal::UnreadableResponseBody => "unable to cache response body for idempotency",
        }
    }
}

/// The label that records why the guard refused a request.
pub fn refusal_outcome(refusal: Refusal) -> (r: &'static str)
    ensures
        refusal == Refusal::FeatureDisabled ==> r@ == "feature_disabled"@,
        refusal == Refusal::RateLimited ==> r@ == "rate_limited"@,
        refusal == Refusal::Forbidden ==> r@ == "permission_denied"@,
        refusal != Refusal::FeatureDisabled && refusal != Refusal::RateLimited && refusal
            != Refusal::Forbidden ==> r@ == "ok"@,
{
    match refusal {
        Refusal::FeatureDisabled => "feature_disabled",
        Refusal::RateLimited => "rate_limited",
        Refusal::Forbidden => "permission_denied",
        _ => "ok",
    }
}

/// The `retry-after` value of a rate-limited answer: the seconds, in decimal.
pub fn retry_after_value(retry_after: u64) -> (r: String)
    ensures
        r@ == decimal(retry_after as nat),
{
    decimal_string(retry_after)
}

// ---------------------------------------------------------------------------
// The guard's steps
// ---------------------------------------------------------------------------

/// What the guard decided about a request in scope, before anything ran.
pub struct GuardPlan {
    pub policy: RoutePolicy,
    pub feature_on: bool,
    pub rate_limiting: bool,
    pub idempotency: bool,
}

/// A guard plan as values.
pub struct PlanView {
    pub policy: PolicyView,
    pub feature_on: bool,
    pub rate_limiting: bool,
    pub idempotency: bool,
}

impl View for GuardPlan {
    type V = PlanView;

    open spec fn view(&self) -> PlanView {
        PlanView {
            policy: self.policy@,
            feature_on: self.feature_on,
            rate_limiting: self.rate_limiting,
            idempotency: self.idempotency,
        }
    }
}

/// The plan for a request, or `None` when its path is outside the guard's scope.
pub open spec fn plan_for(disabled: Set<Seq<char>>, method: Seq<char>, path: Seq<char>) -> Option<PlanView> {
    if !api_scope(path) {
        None
    } else {
        let policy = policy_for(method, path);
        Some(
            PlanView {
                policy,
                feature_on: feature_enabled(disabled, policy.feature),
                rate_limiting: feature_enabled(disabled, "rate-limiting"@),
                idempotency: feature_enabled(disabled, "idempotency"@),
            },
        )
    }
}

/// The plan for a request, or `None` when the guard lets it pass untouched.
pub fn guard_plan(flags: &FeatureFlags, method: &str, path: &str) -> (r: Option<GuardPlan>)
    ensures
        match r {
            Some(p) => plan_for(flags@, method@, path@) == Some(p@),
            None => plan_for(flags@, method@, path@) is None,
        },
{
    if !is_api_scope(path) {
        return None;
    }
    let policy = route_policy(method, path);
    let feature_on = flags.is_enabled(policy.feature);
    let rate_limiting = flags.is_enabled("rate-limiting");
    let idempotency = flags.is_enabled("idempotency");
    Some(GuardPlan { policy, feature_on, rate_limiting, idempotency })
}

/// What has happened to a request in the guard so far.
pub enum GuardEvent {
    /// The request has just come in.
    Arrived,
    /// The rate limiter answered: `Some` seconds to wait when it refused.
    RateChecked(Option<u64>),
    /// Authorization finished: `Some` status of its refusal, `None` when it passed.
    Authorized(Option<u16>),
}

/// What the guard does next.
pub enum GuardAction {
    /// Answer with a refusal; `retry_after` is set when rate limited.
    Refuse { refusal: Refusal, retry_after: Option<u64> },
    /// Count the request against its rate-limit bucket.
    CheckRate,
    /// Check the caller's token and, when named, this permission.
    Authorize { permission: Option<&'static str> },
    /// Answer with the refusal of the authorization check; `outcome` is its label.
    AuthorizationRefused { outcome: &'static str },
    /// Run the request under its idempotency key.
    RunIdempotent,
    /// Run the request.
    Run,
}

/// The label that records why authorization refused, by the status it answered.
pub open spec fn authorization_outcome(status: u16) -> Seq<char> {
    if status == 401 {
        "auth_missing"@
    } else if status == 403 {
        "permission_denied"@
    } else {
        "authorization_failed"@
    }
}

/// The label that records why authorization refused a request.
pub fn authorization_outcome_label(status: u16) -> (r: &'static str)
    ensures
        r@ == authorization_outcome(status),
{
    if status == 401 {
        "auth_missing"
    } else if status == 403 {
        "permission_denied"
    } else {
        "authorization_failed"
    }
}

/// The guard's next action, as values: `None` for a permission means none.
pub enum ActionView {
    Refuse { refusal: Refusal, retry_after: Option<u64> },
    CheckRate,
    Authorize { permission: Option<Seq<char>> },
    AuthorizationRefused { outcome: Seq<char> },
    RunIdempotent,
    Run,
}

impl View for GuardAction {
    type V = ActionView;

    open spec fn view(&self) -> ActionView {
        match self {
            GuardAction::Refuse { refusal, retry_after } => ActionView::Refuse {
                refusal: *refusal,
                retry_after: *retry_after,
            },
            GuardAction::CheckRate => ActionView::CheckRate,
            GuardAction::Authorize { permission } => ActionView::Authorize {
                permission: match permission {
                    Some(p) => Some(p@),
                    None => None,
                },
            },
            GuardAction::AuthorizationRefused { outcome } => ActionView::AuthorizationRefused {
                outcome: outcome@,
            },
            GuardAction::RunIdempotent => ActionView::RunIdempotent,
            GuardAction::Run => ActionView::Run,
        }
    }
}

/// After the rate limiter let a request through: authorize it, or run it.
pub open spec fn after_rate(p: PlanView) -> ActionView {
    if p.policy.require_auth {
        ActionView::Authorize { permission: p.policy.permission }
    } else {
        after_auth(p)
    }
}

/// After authorization passed (or was not needed): run the request.
pub open spec fn after_auth(p: PlanView) -> ActionView {
    if p.policy.idempotent && p.idempotency {
        ActionView::RunIdempotent
    } else {
        ActionView::Run
    }
}

/// The guard's next action for a request with plan `p` after `event`.
pub open spec fn guard_next(p: PlanView, event: GuardEvent) -> ActionView {
    match event {
        GuardEvent::Arrived => if !p.feature_on {
            ActionView::Refuse { refusal: Refusal::FeatureDisabled, retry_after: None }
        } else if p.rate_limiting {
            ActionView::CheckRate
        } else {
            after_rate(p)
        },
        GuardEvent::RateChecked(Some(retry)) => ActionView::Refuse {
            refusal: Refusal::RateLimited,
            retry_after: Some(retry),
        },
        GuardEvent::RateChecked(None) => after_rate(p),
        GuardEvent::Authorized(Some(status)) => ActionView::AuthorizationRefused {
            outcome: authorization_outcome(status),
        },
        GuardEvent::Authorized(None) => after_auth(p),
    }
}

fn then_run(plan: &GuardPlan) -> (r: GuardAction)
    ensures
        r@ == after_auth(plan@),
{
    if plan.policy.idempotent && plan.idempotency {
        GuardAction::RunIdempotent
    } else {
        GuardAction::Run
    }
}

fn then_authorize(plan: &GuardPlan) -> (r: GuardAction)
    ensures
        r@ == after_rate(plan@),
{
    if plan.policy.require_auth {
        GuardAction::Authorize { permission: plan.policy.permission }
    } else {
        then_run(plan)
    }
}

/// The guard's next action for a request with `plan` after `event`.
pub fn guard_step(plan: &GuardPlan, event: GuardEvent) -> (r: GuardAction)
    ensures
        r@ == guard_next(plan@, event),
{
    match event {
        GuardEvent::Arrived => {
            if !plan.feature_on {
                GuardAction::Refuse { refusal: Refusal::FeatureDisabled, retry_after: None }
            } else if plan.rate_limiting {
                GuardAction::CheckRate
            } else {
                then_authorize(plan)
            }
        },
        GuardEvent::RateChecked(Some(retry)) => GuardAction::Refuse {
            refusal: Refusal::RateLimited,
            retry_after: Some(retry),
        },
        GuardEvent::RateChecked(None) => then_authorize(plan),
        GuardEvent::Authorized(Some(status)) => GuardAction::AuthorizationRefused {
            outcome: authorization_outcome_label(status),
        },
        GuardEvent::Authorized(None) => then_run(plan),
    }
}

/// The event level of the request log line: `error` for server errors, `warn`
/// for client errors, else `info`.
pub open spec fn level_for(status: u16) -> Seq<char> {
    if 500 <= status < 600 {
        "error"@
    } else if 400 <= status < 500 {
        "warn"@
    } else {
        "info"@
    }
}

/// The level at which a finished API request is logged.
pub fn event_level(status: u16) -> (r: &'static str)
    ensures
        r@ == level_for(status),
{
    if 500 <= status && status < 600 {
        "error"
    } else if 400 <= status && status < 500 {
        "warn"
    } else {
        "info"
    }
}

// ---------------------------------------------------------------------------
// Authorization
// ---------------------------------------------------------------------------

/// What has happened in an authorization check so far.
pub enum AuthorizationEvent {
    /// The check starts; the auth database is or is not configured.
    Started { auth_configured: bool },
    /// The token was verified (`true`) or rejected.
    TokenVerified(bool),
    /// The permission lookup answered whether the caller holds it, or failed.
    PermissionLooked(Option<bool>),
}

/// What the authorization check does next.
pub enum AuthorizationAction {
    /// Let the request through.
    Pass,
    /// Verify this bearer token.
    Verify(String),
    /// Answer with the token verifier's error.
    RefuseWithVerifyError,
    /// Look up whether the caller holds this permission.
    LookUp(&'static str),
    /// Answer that the caller lacks the permission.
    Refuse(Refusal),
    /// Answer with the lookup's error.
    RefuseWithLookupError,
}

/// The authorization check's next action, as values.
pub enum AuthorizationActionView {
    Pass,
    Verify(Seq<char>),
    RefuseWithVerifyError,
    LookUp(Seq<char>),
    Refuse(Refusal),
    RefuseWithLookupError,
}

impl View for AuthorizationAction {
    type V = AuthorizationActionView;

    open spec fn view(&self) -> AuthorizationActionView {
        match self {
            AuthorizationAction::Pass => AuthorizationActionView::Pass,
            AuthorizationAction::Verify(t) => AuthorizationActionView::Verify(t@),
            AuthorizationAction::RefuseWithVerifyError => AuthorizationActionView::RefuseWithVerifyError,
            AuthorizationAction::LookUp(p) => AuthorizationActionView::LookUp(p@),
            AuthorizationAction::Refuse(r) => AuthorizationActionView::Refuse(*r),
            AuthorizationAction::RefuseWithLookupError => AuthorizationActionView::RefuseWithLookupError,
        }
    }
}

/// The authorization check's next action. Without an auth database, or without
/// a bearer token, the request passes; the token is verified; a permission, when
/// the route names one and RBAC is on, is looked up.
pub open spec fn authorization_next(
    headers: Seq<(Seq<char>, Seq<u8>)>,
    permission: Option<Seq<char>>,
    rbac: bool,
    event: AuthorizationEvent,
) -> AuthorizationActionView {
    match event {
        AuthorizationEvent::Started { auth_configured } => if !auth_configured {
            AuthorizationActionView::Pass
        } else {
            match authorization_token_of(headers) {
                Some(t) => AuthorizationActionView::Verify(t),
                None => AuthorizationActionView::Pass,
            }
        },
        AuthorizationEvent::TokenVerified(ok) => if !ok {
            AuthorizationActionView::RefuseWithVerifyError
        } else {
            match permission {
                None => AuthorizationActionView::Pass,
                Some(p) => if !rbac {
                    AuthorizationActionView::Pass
                } else {
                    AuthorizationActionView::LookUp(p)
                },
            }
        },
        AuthorizationEvent::PermissionLooked(found) => match found {
            Some(true) => AuthorizationActionView::Pass,
            Some(false) => AuthorizationActionView::Refuse(Refusal::Forbidden),
            None => AuthorizationActionView::RefuseWithLookupError,
        },
    }
}

/// The authorization check's next action.
pub fn authorization_step(
    headers: &Headers,
    permission: Option<&'static str>,
    rbac: bool,
    event: AuthorizationEvent,
) -> (r: AuthorizationAction)
    ensures
        r@ == authorization_next(
            headers@,
            match permission {
                Some(p) => Some(p@),
                None => None,
            },
            rbac,
            event,
        ),
{
    match event {
        AuthorizationEvent::Started { auth_configured } => {
            if !auth_configured {
                return AuthorizationAction::Pass;
            }
            match authorization_token(headers) {
                Some(t) => AuthorizationAction::Verify(t),
                None => AuthorizationAction::Pass,
            }
        },
        AuthorizationEvent::TokenVerified(ok) => {
            if !ok {
                return AuthorizationAction::RefuseWithVerifyError;
            }
            match permission {
                None => AuthorizationAction::Pass,
                Some(p) => if !rbac {
                    AuthorizationAction::Pass
                } else {
                    AuthorizationAction::LookUp(p)
                },
            }
        },
        AuthorizationEvent::PermissionLooked(found) => match found {
            Some(true) => AuthorizationAction::Pass,
            Some(false) => AuthorizationAction::Refuse(Refusal::Forbidden),
            None => AuthorizationAction::RefuseWithLookupError,
        },
    }
}

// ---------------------------------------------------------------------------
// Idempotent requests
// ---------------------------------------------------------------------------

/// The scope an idempotency key is remembered under: the subject, the path and
/// the key, joined by `':'`.
pub open spec fn scope_of(h: Seq<(Seq<char>, Seq<u8>)>, path: Seq<char>, key: Seq<char>) -> Seq<char> {
    subject_of(h) + ":"@ + path + ":"@ + key
}

/// The scope an idempotency key is remembered under.
pub fn idempotency_scope(headers: &Headers, path: &str, key: &str) -> (r: String)
    ensures
        r@ == scope_of(headers@, path@, key@),
{
    let mut s = idempotency_subject(headers);
    append_str(&mut s, ":");
    append_str(&mut s, path);
    append_str(&mut s, ":");
    append_str(&mut s, key);
    s
}

/// What identifies a request for its idempotency key: the SHA-256 digest of its
/// method, path and body, in lower-case hexadecimal.
pub open spec fn fingerprint_of(method: Seq<char>, path: Seq<char>, body: Seq<u8>) -> Seq<char> {
    hex_lower(sha256_digest(encode_utf8(method) + encode_utf8(path) + body))
}

/// The fingerprint of a request.
pub fn request_fingerprint(method: &str, path: &str, body: &[u8]) -> (r: String)
    ensures
        r@ == fingerprint_of(method@, path@, body@),
{
    let mut data: Vec<u8> = Vec::new();
    let mb = method.as_bytes();
    let pb = path.as_bytes();
    let mut i: usize = 0;
    while i < mb.len()
        invariant
            i <= mb@.len(),
            data@ == mb@.take(i as int),
        decreases mb@.len() - i,
    {
        data.push(mb[i]);
        assert(data@ =~= mb@.take(i + 1));
        i = i + 1;
    }
    assert(mb@.take(mb@.len() as int) =~= mb@);
    let mut j: usize = 0;
    while j < pb.len()
        invariant
            j <= pb@.len(),
            data@ == mb@ + pb@.take(j as int),
        decreases pb@.len() - j,
    {
        data.push(pb[j]);
        assert(data@ =~= mb@ + pb@.take(j + 1));
        j = j + 1;
    }
    assert(pb@.take(pb@.len() as int) =~= pb@);
    let mut k: usize = 0;
    while k < body.len()
        invariant
            k <= body@.len(),
            data@ == mb@ + pb@ + body@.take(k as int),
        decreases body@.len() - k,
    {
        data.push(body[k]);
        assert(data@ =~= mb@ + pb@ + body@.take(k + 1));
        k = k + 1;
    }
    assert(body@.take(body@.len() as int) =~= body@);
    let digest = sha256(data.as_slice());
    hex_string(digest.as_slice())
}

/// The most request body, and response body, kept for an idempotent request: 1 MiB.
pub const IDEMPOTENCY_BODY_LIMIT_BYTES: usize = 1048576;

/// The headers of a replayed response: the stored ones, marked
/// `x-idempotency-replayed: true`.
pub fn replay_headers(stored: &Headers) -> (r: Headers)
    ensures
        r@ == with_header(stored@, "x-idempotency-replayed"@, seq![116u8, 114u8, 117u8, 101u8]),
{
    let mut h = stored.copy();
    h.insert(String::from_str("x-idempotency-replayed"), vec![116u8, 114u8, 117u8, 101u8]);
    h
}

/// What to do with a request after the idempotency store answered.
#[derive(PartialEq, Eq, Structural)]
pub enum IdempotentAction {
    /// Run it and keep its response.
    Run,
    /// Answer with the stored response, marked as replayed.
    Replay,
    /// Refuse it.
    Refuse(Refusal),
}

/// What to do after the idempotency store answered `decision`.
pub open spec fn idempotent_next(decision: DecisionView) -> IdempotentAction {
    match decision {
        DecisionView::Allow => IdempotentAction::Run,
        DecisionView::Replay(_) => IdempotentAction::Replay,
        DecisionView::InProgress => IdempotentAction::Refuse(Refusal::KeyInProgress),
        DecisionView::Conflict => IdempotentAction::Refuse(Refusal::KeyReusedWithOtherRequest),
    }
}

/// What to do after the idempotency store answered.
pub fn idempotent_step(decision: &IdempotencyDecision) -> (r: IdempotentAction)
    ensures
        r == idempotent_next(decision@),
{
    match decision {
        IdempotencyDecision::Allow => IdempotentAction::Run,
        IdempotencyDecision::Replay(_) => IdempotentAction::Replay,
        IdempotencyDecision::InProgress => IdempotentAction::Refuse(Refusal::KeyInProgress),
        IdempotencyDecision::Conflict => IdempotentAction::Refuse(
            Refusal::KeyReusedWithOtherRequest,
        ),
    }
}

// ---------------------------------------------------------------------------
// Laws
// ---------------------------------------------------------------------------

/// A request to a route that needs authentication never runs before it has been
/// authorized: coming in, and passing the rate limiter, lead at most to the
/// authorization check.
pub proof fn law_no_run_before_authorization(p: PlanView, retry: Option<u64>)
    requires
        p.policy.require_auth,
    ensures
        !(guard_next(p, GuardEvent::Arrived) is Run),
        !(guard_next(p, GuardEvent::Arrived) is RunIdempotent),
        !(guard_next(p, GuardEvent::RateChecked(retry)) is Run),
        !(guard_next(p, GuardEvent::RateChecked(retry)) is RunIdempotent),
{
}

/// A request whose feature is switched off is refused with 503 before anything else.
pub proof fn law_disabled_feature_refused(p: PlanView)
    requires
        !p.feature_on,
    ensures
        guard_next(p, GuardEvent::Arrived) == (ActionView::Refuse {
            refusal: Refusal::FeatureDisabled,
            retry_after: None,
        }),
        refusal_status(Refusal::FeatureDisabled) == 503,
{
}

/// A caller refused by the rate limiter is answered 429 with the seconds to wait.
pub proof fn law_rate_limited_answer(p: PlanView, retry: u64)
    ensures
        guard_next(p, GuardEvent::RateChecked(Some(retry))) == (ActionView::Refuse {
            refusal: Refusal::RateLimited,
            retry_after: Some(retry),
        }),
        refusal_status(Refusal::RateLimited) == 429,
{
}

/// Once RBAC is on and the route names a permission, a verified caller without
/// that permission is refused with 403.
pub proof fn law_missing_permission_forbidden(
    headers: Seq<(Seq<char>, Seq<u8>)>,
    permission: Seq<char>,
)
    ensures
        authorization_next(headers, Some(permission), true, AuthorizationEvent::TokenVerified(true))
            == AuthorizationActionView::LookUp(permission),
        authorization_next(headers, Some(permission), true, AuthorizationEvent::PermissionLooked(Some(false)))
            == AuthorizationActionView::Refuse(Refusal::Forbidden),
        refusal_status(Refusal::Forbidden) == 403,
{
}

/// What each refusal answers: its HTTP status and the `error` text of its body.
pub proof fn law_refusal_answers()
    ensures
        refusal_status(Refusal::FeatureDisabled) == 503 && refusal_message(Refusal::FeatureDisabled)
            == "feature disabled"@,
        refusal_status(Refusal::RateLimited) == 429 && refusal_message(Refusal::RateLimited)
            == "rate limit exceeded"@,
        refusal_status(Refusal::Forbidden) == 403 && refusal_message(Refusal::Forbidden)
            == "insufficient permissions"@,
        refusal_status(Refusal::KeyReusedWithOtherRequest) == 409 && refusal_message(
            Refusal::KeyReusedWithOtherRequest,
        ) == "idempotency key was reused with a different request"@,
        refusal_status(Refusal::KeyInProgress) == 409 && refusal_message(Refusal::KeyInProgress)
            == "idempotency key is still processing"@,
        refusal_status(Refusal::UnreadableRequestBody) == 400 && refusal_message(
            Refusal::UnreadableRequestBody,
        ) == "unable to read request body for idempotency"@,
        refusal_status(Refusal::UnreadableResponseBody) == 502 && refusal_message(
            Refusal::UnreadableResponseBody,
        ) == "unable to cache response body for idempotency"@,
{
}

/// A request whose feature is on runs once it is through: without rate limiting
/// and authentication at once, after the limiter lets it through when no
/// authentication is needed, and after authorization passed otherwise; it runs
/// under its idempotency key exactly when the route is idempotent and the
/// idempotency switch is on.
pub proof fn law_passing_request_runs(p: PlanView)
    requires
        p.feature_on,
    ensures
        guard_next(p, GuardEvent::Authorized(None)) == (if p.policy.idempotent && p.idempotency {
            ActionView::RunIdempotent
        } else {
            ActionView::Run
        }),
        !p.policy.require_auth ==> guard_next(p, GuardEvent::RateChecked(None)) == guard_next(
            p,
            GuardEvent::Authorized(None),
        ),
        !p.policy.require_auth && !p.rate_limiting ==> guard_next(p, GuardEvent::Arrived)
            == guard_next(p, GuardEvent::Authorized(None)),
        p.rate_limiting ==> guard_next(p, GuardEvent::Arrived) == ActionView::CheckRate,
        p.policy.require_auth ==> guard_next(p, GuardEvent::RateChecked(None))
            == (ActionView::Authorize { permission: p.policy.permission }),
{
}

/// An authorization refusal answered 401 is recorded as a missing token, one
/// answered 403 as a denied permission, and any other as a failed check.
pub proof fn law_authorization_refusal_labels(p: PlanView, status: u16)
    ensures
        guard_next(p, GuardEvent::Authorized(Some(status))) == (ActionView::AuthorizationRefused {
            outcome: if status == 401 {
                "auth_missing"@
            } else if status == 403 {
                "permission_denied"@
            } else {
                "authorization_failed"@
            },
        }),
{
}

/// Without an auth database every request passes authorization; a rejected token
/// is refused with the verifier's error; a permission lookup that fails is
/// refused with the lookup's error; a route with no permission, or with RBAC
/// off, passes once the token is verified.
pub proof fn law_authorization_outcomes(
    headers: Seq<(Seq<char>, Seq<u8>)>,
    permission: Option<Seq<char>>,
    rbac: bool,
)
    ensures
        authorization_next(headers, permission, rbac, AuthorizationEvent::Started { auth_configured: false })
            == AuthorizationActionView::Pass,
        authorization_next(headers, permission, rbac, AuthorizationEvent::TokenVerified(false))
            == AuthorizationActionView::RefuseWithVerifyError,
        authorization_next(headers, permission, rbac, AuthorizationEvent::PermissionLooked(None))
            == AuthorizationActionView::RefuseWithLookupError,
        authorization_next(headers, permission, rbac, AuthorizationEvent::PermissionLooked(Some(true)))
            == AuthorizationActionView::Pass,
        (permission is None || !rbac) ==> authorization_next(
            headers,
            permission,
            rbac,
            AuthorizationEvent::TokenVerified(true),
        ) == AuthorizationActionView::Pass,
{
}

/// After the idempotency store answered: a new key runs, a completed one is
/// replayed, a key still running is refused as in progress (409), and a key
/// reused for another request is refused as a conflict (409).
pub proof fn law_idempotent_answers(r: ResponseView)
    ensures
        idempotent_next(DecisionView::Allow) == IdempotentAction::Run,
        idempotent_next(DecisionView::Replay(r)) == IdempotentAction::Replay,
        idempotent_next(DecisionView::InProgress) == IdempotentAction::Refuse(Refusal::KeyInProgress),
        idempotent_next(DecisionView::Conflict) == IdempotentAction::Refuse(
            Refusal::KeyReusedWithOtherRequest,
        ),
        refusal_status(Refusal::KeyInProgress) == 409,
        refusal_status(Refusal::KeyReusedWithOtherRequest) == 409,
{
}

/// Paths outside `/api`, `/internal` and `/openapi.json` are not guarded at all.
pub proof fn law_outside_scope_unguarded(disabled: Set<Seq<char>>, method: Seq<char>, path: Seq<char>)
    requires
        path != "/openapi.json"@,
        !has_prefix(path, "/api"@),
        !has_prefix(path, "/internal"@),
    ensures
        plan_for(disabled, method, path) is None,
{
}
} // verus!
