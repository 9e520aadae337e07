use tether::auth::{
    admin_permissions, bearer_token, default_permissions, default_role, google_config,
    jwt_secret, require_auth, role_permission_grants, ApiErrorKind, PkceStore,
};
use tether::headers::Headers;

const SEC: u64 = 1_000_000_000;

fn auth_header(v: &str) -> Headers {
    let mut h = Headers::new();
    h.append("authorization".to_string(), v.as_bytes().to_vec());
    h
}

#[test]
fn bearer_token_cases() {
    assert_eq!(bearer_token(&auth_header("Bearer abc.def")).ok(), Some("abc.def".to_string()));
    assert_eq!(bearer_token(&auth_header("Bearer  x ")).ok(), Some(" x ".to_string()));
    let e = bearer_token(&Headers::new()).err().unwrap();
    assert!(e.kind == ApiErrorKind::Unauthorized);
    assert_eq!(e.message, "missing Authorization bearer token");
    let e = bearer_token(&auth_header("Token abc")).err().unwrap();
    assert_eq!(e.message, "invalid Authorization bearer token");
    let e = bearer_token(&auth_header("Bearer   ")).err().unwrap();
    assert_eq!(e.message, "invalid Authorization bearer token");
}

#[test]
fn pkce_state_is_used_once() {
    let mut store = PkceStore::new();
    store.store_pkce_session("state1".to_string(), "verifier1".to_string(), 0);
    let s = store.take_pkce_session("state1", SEC, SEC).ok().unwrap();
    assert_eq!(s.verifier, "verifier1");
    assert_eq!(s.expires_at, 600 * SEC);
    let e = store.take_pkce_session("state1", SEC, SEC).err().unwrap();
    assert!(e.kind == ApiErrorKind::BadRequest);
    assert_eq!(e.message, "invalid or expired OAuth state");
}

#[test]
fn pkce_state_expires() {
    let mut store = PkceStore::new();
    store.store_pkce_session("s".to_string(), "v".to_string(), 0);
    let e = store.take_pkce_session("s", 600 * SEC, 600 * SEC).err().unwrap();
    assert_eq!(e.message, "invalid or expired OAuth state");
    store.store_pkce_session("t".to_string(), "v".to_string(), 0);
    let e = store.take_pkce_session("t", 599 * SEC, 600 * SEC).err().unwrap();
    assert_eq!(e.message, "expired OAuth state");
}

#[test]
fn configuration_checks() {
    assert!(require_auth(Some(5)).ok() == Some(5));
    let e = require_auth::<u8>(None).err().unwrap();
    assert!(e.kind == ApiErrorKind::Unavailable);
    assert_eq!(e.message, "auth database is not configured");
    assert_eq!(jwt_secret(None).err().unwrap().message, "JWT_SECRET must be configured when DATABASE_URL is set");
    assert_eq!(jwt_secret(Some("short".to_string())).err().unwrap().message, "JWT_SECRET must be at least 32 bytes for HS256 signing");
    let secret = "0123456789abcdef0123456789abcdef".to_string();
    assert_eq!(jwt_secret(Some(secret.clone())).ok(), Some(secret));
    assert!(jwt_secret(Some("éééééééééééééééé".to_string())).is_ok());
    assert!(google_config(Some("a".into()), Some("b".into()), None).is_none());
    let g = google_config(Some("a".into()), Some("b".into()), Some("c".into())).unwrap();
    assert_eq!((g.client_id.as_str(), g.client_secret.as_str(), g.redirect_uri.as_str()), ("a", "b", "c"));
}

#[test]
fn seed_grants_every_permission_to_both_roles() {
    assert_eq!(default_role(), "member");
    assert_eq!(default_permissions().len(), 7);
    assert_eq!(admin_permissions(), vec!["actions:execute"]);
    let grants = role_permission_grants();
    assert_eq!(grants.len(), 16);
    assert_eq!(grants[0], ("member", "access:api"));
    assert_eq!(grants[1], ("admin", "access:api"));
    assert_eq!(grants[15], ("admin", "actions:execute"));
    assert!(grants.contains(&("member", "actions:execute")));
}
