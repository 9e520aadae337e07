use tether::health::{readiness, require_auth_db, validate_auth, validate_sqlite};

#[test]
fn sqlite_probe_outcomes() {
    let ok = validate_sqlite(Ok(Ok(1)));
    assert_eq!((ok.status, ok.error.clone(), ok.healthy), ("ok", None, true));
    let odd = validate_sqlite(Ok(Ok(2)));
    assert_eq!(odd.status, "unhealthy");
    assert_eq!(odd.error.as_deref(), Some("sqlite readiness query returned unexpected value"));
    assert!(!odd.healthy);
    let failed = validate_sqlite(Ok(Err("locked".to_string())));
    assert_eq!(failed.error.as_deref(), Some("locked"));
    let worker = validate_sqlite(Err("panicked".to_string()));
    assert_eq!((worker.status, worker.healthy), ("unhealthy", false));
}

#[test]
fn auth_probe_outcomes() {
    let disabled = validate_auth(None, false);
    assert_eq!((disabled.status, disabled.healthy), ("disabled", true));
    assert_eq!(disabled.error.as_deref(), Some("DATABASE_URL is not configured"));
    let required = validate_auth(None, true);
    assert_eq!((required.status, required.healthy), ("unhealthy", false));
    let ok = validate_auth(Some(Ok(1)), true);
    assert_eq!((ok.status, ok.healthy), ("ok", true));
    let wrong = validate_auth(Some(Ok(0)), false);
    assert_eq!(wrong.error.as_deref(), Some("query returned false"));
    let err = validate_auth(Some(Err("timeout".to_string())), false);
    assert_eq!(err.error.as_deref(), Some("timeout"));
}

#[test]
fn readiness_answers() {
    let good = validate_sqlite(Ok(Ok(1)));
    let auth = validate_auth(None, false);
    let r = readiness(&good, &auth);
    assert!(r.ready);
    assert_eq!((r.status, r.http_status), ("ok", 200));
    let bad = validate_auth(None, true);
    let r = readiness(&good, &bad);
    assert_eq!((r.ready, r.status, r.http_status), (false, "degraded", 503));
}

#[test]
fn require_auth_db_setting() {
    assert!(require_auth_db(Some("1")));
    assert!(require_auth_db(Some("true")));
    assert!(require_auth_db(Some("on")));
    assert!(!require_auth_db(Some("TRUE")));
    assert!(!require_auth_db(Some("yes")));
    assert!(!require_auth_db(None));
}
