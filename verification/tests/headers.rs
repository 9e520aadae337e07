use sha2::{Digest, Sha256};
use tether::guard::{idempotency_scope, request_fingerprint};
use tether::headers::{
    authorization_token, idempotency_key, idempotency_subject, rate_limit_key, request_client,
    response_request_id, Headers,
};

fn headers(pairs: &[(&str, &str)]) -> Headers {
    let mut h = Headers::new();
    for (n, v) in pairs {
        h.append(n.to_string(), v.as_bytes().to_vec());
    }
    h
}

fn hex_sha256(data: &[u8]) -> String {
    Sha256::digest(data).iter().map(|b| format!("{:02x}", b)).collect()
}

#[test]
fn client_from_forwarded_for_first_entry() {
    let h = headers(&[("x-forwarded-for", " 10.0.0.1 , 10.0.0.2"), ("x-real-ip", "9.9.9.9")]);
    assert_eq!(request_client(&h), "10.0.0.1");
}

#[test]
fn client_from_real_ip_then_unknown() {
    assert_eq!(request_client(&headers(&[("x-real-ip", "  9.9.9.9 ")])), "9.9.9.9");
    assert_eq!(request_client(&headers(&[])), "unknown");
}

#[test]
fn unreadable_forwarded_for_falls_back() {
    let mut h = Headers::new();
    h.append("x-forwarded-for".to_string(), vec![0x01, 0x41]);
    h.append("x-real-ip".to_string(), b"1.1.1.1".to_vec());
    assert_eq!(request_client(&h), "1.1.1.1");
}

#[test]
fn short_authorization_names_the_bucket() {
    let h = headers(&[("authorization", "abc"), ("x-real-ip", "1.2.3.4")]);
    assert_eq!(
        rate_limit_key(&h, "GET", "/api/x"),
        "token:ba7816bf8f01cfea414140de5dae2223b00361a396177a9cb410ff61f20015ad|GET|/api/x"
    );
}

#[test]
fn long_authorization_uses_the_client() {
    let h = headers(&[("authorization", "Bearer a-long-jwt-token"), ("x-real-ip", "1.2.3.4")]);
    assert_eq!(rate_limit_key(&h, "POST", "/api/events"), "1.2.3.4|POST|/api/events");
}

#[test]
fn subject_is_hashed_bearer_token() {
    let h = headers(&[("authorization", "Bearer abc")]);
    assert_eq!(idempotency_subject(&h), hex_sha256(b"abc"));
    let h = headers(&[("authorization", "Basic abc"), ("x-forwarded-for", "7.7.7.7")]);
    assert_eq!(idempotency_subject(&h), "7.7.7.7");
}

#[test]
fn scope_joins_subject_path_and_key() {
    let h = headers(&[("x-real-ip", "5.5.5.5")]);
    assert_eq!(idempotency_scope(&h, "/api/events", "k-1"), "5.5.5.5:/api/events:k-1");
}

#[test]
fn fingerprint_hashes_method_path_and_body() {
    assert_eq!(request_fingerprint("POST", "/api/events", b"{}"), hex_sha256(b"POST/api/events{}"));
    assert_ne!(request_fingerprint("POST", "/api/events", b"{}"), request_fingerprint("POST", "/api/events", b"[]"));
}

#[test]
fn authorization_token_is_trimmed_and_not_blank() {
    assert_eq!(authorization_token(&headers(&[("authorization", "Bearer  tok ")])), Some("tok".to_string()));
    assert_eq!(authorization_token(&headers(&[("authorization", "Bearer    ")])), None);
    assert_eq!(authorization_token(&headers(&[("authorization", "bearer tok")])), None);
    assert_eq!(authorization_token(&headers(&[])), None);
}

#[test]
fn idempotency_key_is_trimmed_and_not_blank() {
    assert_eq!(idempotency_key(&headers(&[("idempotency-key", " k1 ")])), Some("k1".to_string()));
    assert_eq!(idempotency_key(&headers(&[("idempotency-key", "  ")])), None);
    assert_eq!(idempotency_key(&headers(&[])), None);
}

#[test]
fn response_request_id_first_known_header() {
    let h = headers(&[("anthropic-request-id", "a1"), ("request-id", "r1")]);
    assert_eq!(response_request_id(&h), Some("r1".to_string()));
    let h = headers(&[("openai-request-id", "o1")]);
    assert_eq!(response_request_id(&h), Some("o1".to_string()));
    assert_eq!(response_request_id(&headers(&[])), None);
}

#[test]
fn insert_replaces_every_value() {
    let mut h = headers(&[("a", "1"), ("b", "2"), ("a", "3")]);
    h.insert("a".to_string(), b"4".to_vec());
    assert_eq!(h.len(), 2);
    assert_eq!(h.get("a"), Some(&b"4".to_vec()));
    assert_eq!(h.get("b"), Some(&b"2".to_vec()));
}

#[test]
fn set_header_reads_back() {
    let mut h = headers(&[("x-a", "1"), ("x-b", "2"), ("x-a", "3")]);
    h.insert("x-a".to_string(), b"9".to_vec());
    assert_eq!(h.get("x-a"), Some(&b"9".to_vec()));
    assert_eq!(h.get("x-b"), Some(&b"2".to_vec()));
    assert_eq!(h.get("x-c"), None);
    h.insert("x-c".to_string(), b"new".to_vec());
    assert_eq!(h.get("x-c"), Some(&b"new".to_vec()));
    assert_eq!(h.get("x-a"), Some(&b"9".to_vec()));
}
