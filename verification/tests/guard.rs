use tether::flags::FeatureFlags;
use tether::guard::{
    authorization_outcome_label, authorization_step, event_level, guard_plan, guard_step,
    idempotent_step, retry_after_value, AuthorizationAction, AuthorizationEvent, GuardAction,
    GuardEvent, IdempotentAction, Refusal,
};
use tether::headers::Headers;
use tether::idempotency::IdempotencyDecision;

#[test]
fn out_of_scope_requests_pass_untouched() {
    let flags = FeatureFlags::from_list("");
    assert!(guard_plan(&flags, "POST", "/v1/chat/completions").is_none());
}

#[test]
fn disabled_feature_is_refused_first() {
    let flags = FeatureFlags::from_list("traces");
    let plan = guard_plan(&flags, "GET", "/api/traces/current").unwrap();
    match guard_step(&plan, GuardEvent::Arrived) {
        GuardAction::Refuse { refusal, retry_after } => {
            assert!(refusal == Refusal::FeatureDisabled);
            assert_eq!(retry_after, None);
            assert_eq!(refusal.status(), 503);
            assert_eq!(refusal.message(), "feature disabled");
        }
        _ => panic!("expected a refusal"),
    }
}

#[test]
fn full_path_through_the_guard() {
    let flags = FeatureFlags::from_list("");
    let plan = guard_plan(&flags, "POST", "/api/events").unwrap();
    assert!(matches!(guard_step(&plan, GuardEvent::Arrived), GuardAction::CheckRate));
    match guard_step(&plan, GuardEvent::RateChecked(None)) {
        GuardAction::Authorize { permission } => assert_eq!(permission, Some("traces:write")),
        _ => panic!("expected authorization"),
    }
    assert!(matches!(guard_step(&plan, GuardEvent::Authorized(None)), GuardAction::RunIdempotent));
    match guard_step(&plan, GuardEvent::Authorized(Some(403))) {
        GuardAction::AuthorizationRefused { outcome } => assert_eq!(outcome, "permission_denied"),
        _ => panic!("expected refusal"),
    }
    match guard_step(&plan, GuardEvent::RateChecked(Some(12))) {
        GuardAction::Refuse { refusal, retry_after } => {
            assert!(refusal == Refusal::RateLimited);
            assert_eq!(retry_after, Some(12));
            assert_eq!(refusal.status(), 429);
        }
        _ => panic!("expected rate limit"),
    }
}

#[test]
fn rate_limiting_and_idempotency_switches() {
    let flags = FeatureFlags::from_list("rate-limiting,idempotency");
    let plan = guard_plan(&flags, "POST", "/api/events").unwrap();
    assert!(matches!(guard_step(&plan, GuardEvent::Arrived), GuardAction::Authorize { .. }));
    assert!(matches!(guard_step(&plan, GuardEvent::Authorized(None)), GuardAction::Run));
    let plan = guard_plan(&flags, "GET", "/api/events/health").unwrap();
    assert!(matches!(guard_step(&plan, GuardEvent::Arrived), GuardAction::Run));
}

#[test]
fn auth_route_runs_idempotently_without_authorization() {
    let flags = FeatureFlags::from_list("");
    let plan = guard_plan(&flags, "POST", "/api/auth/login").unwrap();
    assert!(matches!(guard_step(&plan, GuardEvent::RateChecked(None)), GuardAction::RunIdempotent));
}

#[test]
fn outcome_labels_and_levels() {
    assert_eq!(authorization_outcome_label(401), "auth_missing");
    assert_eq!(authorization_outcome_label(403), "permission_denied");
    assert_eq!(authorization_outcome_label(503), "authorization_failed");
    assert_eq!(event_level(500), "error");
    assert_eq!(event_level(599), "error");
    assert_eq!(event_level(404), "warn");
    assert_eq!(event_level(204), "info");
    assert_eq!(event_level(600), "info");
    assert_eq!(retry_after_value(42), "42");
}

#[test]
fn authorization_steps() {
    let mut h = Headers::new();
    h.append("authorization".to_string(), b"Bearer jwt".to_vec());
    assert!(matches!(
        authorization_step(&h, Some("traces:read"), true, AuthorizationEvent::Started { auth_configured: false }),
        AuthorizationAction::Pass
    ));
    match authorization_step(&h, Some("traces:read"), true, AuthorizationEvent::Started { auth_configured: true }) {
        AuthorizationAction::Verify(t) => assert_eq!(t, "jwt"),
        _ => panic!("expected verification"),
    }
    assert!(matches!(
        authorization_step(&Headers::new(), None, true, AuthorizationEvent::Started { auth_configured: true }),
        AuthorizationAction::Pass
    ));
    assert!(matches!(
        authorization_step(&h, Some("traces:read"), true, AuthorizationEvent::TokenVerified(false)),
        AuthorizationAction::RefuseWithVerifyError
    ));
    assert!(matches!(
        authorization_step(&h, None, true, AuthorizationEvent::TokenVerified(true)),
        AuthorizationAction::Pass
    ));
    assert!(matches!(
        authorization_step(&h, Some("traces:read"), false, AuthorizationEvent::TokenVerified(true)),
        AuthorizationAction::Pass
    ));
    match authorization_step(&h, Some("traces:read"), true, AuthorizationEvent::TokenVerified(true)) {
        AuthorizationAction::LookUp(p) => assert_eq!(p, "traces:read"),
        _ => panic!("expected lookup"),
    }
    match authorization_step(&h, Some("traces:read"), true, AuthorizationEvent::PermissionLooked(Some(false))) {
        AuthorizationAction::Refuse(r) => {
            assert!(r == Refusal::Forbidden);
            assert_eq!(r.status(), 403);
            assert_eq!(r.message(), "insufficient permissions");
        }
        _ => panic!("expected forbidden"),
    }
    assert!(matches!(
        authorization_step(&h, Some("traces:read"), true, AuthorizationEvent::PermissionLooked(None)),
        AuthorizationAction::RefuseWithLookupError
    ));
}

#[test]
fn idempotency_answers() {
    assert!(idempotent_step(&IdempotencyDecision::Allow) == IdempotentAction::Run);
    assert!(idempotent_step(&IdempotencyDecision::InProgress) == IdempotentAction::Refuse(Refusal::KeyInProgress));
    assert!(idempotent_step(&IdempotencyDecision::Conflict) == IdempotentAction::Refuse(Refusal::KeyReusedWithOtherRequest));
    assert_eq!(Refusal::KeyInProgress.status(), 409);
    assert_eq!(Refusal::KeyInProgress.message(), "idempotency key is still processing");
    assert_eq!(Refusal::KeyReusedWithOtherRequest.message(), "idempotency key was reused with a different request");
    assert_eq!(Refusal::UnreadableRequestBody.status(), 400);
    assert_eq!(Refusal::UnreadableResponseBody.status(), 502);
}
