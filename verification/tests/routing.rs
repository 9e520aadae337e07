use tether::routing::{is_api_scope, route_policy, RoutePolicy};

fn check(p: &RoutePolicy, permission: Option<&str>, limit: u32, auth: bool, idem: bool, feature: &str) {
    assert_eq!(p.permission, permission);
    assert_eq!(p.rate.limit, limit);
    assert_eq!(p.rate.window_secs, 60);
    assert_eq!(p.require_auth, auth);
    assert_eq!(p.idempotent, idem);
    assert_eq!(p.feature, feature);
}

#[test]
fn public_and_api_constructors() {
    check(&RoutePolicy::public(), None, 300, false, false, "public");
    check(&RoutePolicy::api("access:api"), Some("access:api"), 180, true, false, "api");
}

#[test]
fn openapi_document_is_public_with_lower_limit() {
    check(&route_policy("GET", "/openapi.json"), None, 180, false, false, "public");
}

#[test]
fn auth_routes_are_open_and_post_is_idempotent() {
    check(&route_policy("POST", "/api/auth/login"), None, 40, false, true, "auth");
    check(&route_policy("GET", "/api/auth/google/callback"), None, 40, false, false, "auth");
}

#[test]
fn event_routes() {
    check(&route_policy("POST", "/api/events"), Some("traces:write"), 120, true, true, "events");
    check(&route_policy("GET", "/api/events/health"), None, 120, false, false, "events");
}

#[test]
fn cache_route_idempotent_only_for_delete() {
    check(&route_policy("DELETE", "/api/cache"), Some("traces:write"), 120, true, true, "traces");
    check(&route_policy("GET", "/api/cache"), Some("traces:write"), 120, true, false, "traces");
}

#[test]
fn settings_routes() {
    check(&route_policy("POST", "/api/settings/profile"), Some("settings:read"), 120, true, false, "settings");
    check(&route_policy("GET", "/api/settings/app"), Some("settings:read"), 120, true, false, "settings");
    check(&route_policy("POST", "/api/settings/app/update"), Some("settings:write"), 120, true, true, "settings");
    check(&route_policy("DELETE", "/api/settings/keys"), Some("settings:write"), 120, true, false, "settings");
    check(&route_policy("PUT", "/api/settings/profile/update"), Some("settings:write"), 120, true, true, "settings");
    check(&route_policy("PUT", "/api/settings/cometapi-key"), Some("settings:write"), 120, true, true, "settings");
    check(&route_policy("GET", "/api/settings/cometapi-key"), Some("settings:read"), 120, true, false, "settings");
    check(&route_policy("POST", "/api/settings/cometapi-key"), Some("settings:write"), 120, true, false, "settings");
}

#[test]
fn provider_and_internal_routes() {
    check(&route_policy("GET", "/api/providers/cometapi/models"), Some("providers:read"), 60, true, false, "providers");
    check(&route_policy("POST", "/internal/actions/execute"), Some("actions:execute"), 30, true, true, "actions");
    check(&route_policy("GET", "/internal/status"), Some("actions:execute"), 60, true, false, "internal");
}

#[test]
fn trace_routes() {
    check(&route_policy("DELETE", "/api/traces/current"), Some("traces:write"), 120, true, true, "traces");
    check(&route_policy("GET", "/api/traces/current"), Some("traces:read"), 180, true, false, "traces");
    check(&route_policy("GET", "/api/traces/current/summary"), Some("traces:read"), 180, true, false, "traces");
    check(&route_policy("PATCH", "/api/traces/n1/output"), Some("traces:write"), 120, true, true, "traces");
    check(&route_policy("GET", "/api/traces/n1/output"), Some("traces:write"), 120, true, false, "traces");
    check(&route_policy("POST", "/api/traces/n1/replay"), Some("traces:replay"), 60, true, true, "traces");
    check(&route_policy("POST", "/api/traces/n1/replay-with"), Some("traces:replay"), 60, true, true, "traces");
    check(&route_policy("GET", "/api/traces/n1/downstream"), Some("traces:read"), 180, true, false, "traces");
}

#[test]
fn other_api_and_public_paths() {
    check(&route_policy("GET", "/api/sessions"), Some("access:api"), 180, true, false, "api");
    check(&route_policy("GET", "/v1/chat/completions"), None, 300, false, false, "public");
}

#[test]
fn api_scope() {
    assert!(is_api_scope("/openapi.json"));
    assert!(is_api_scope("/api"));
    assert!(is_api_scope("/api/events"));
    assert!(is_api_scope("/internal/x"));
    assert!(!is_api_scope("/v1/messages"));
    assert!(!is_api_scope("/healthz"));
    assert!(!is_api_scope("/openapi.json.bak"));
}
