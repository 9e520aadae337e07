use tether::headers::Headers;
use tether::replay::{
    check_replayable, descendants, forward_headers, inject_replay_credentials,
    is_forbidden_replay_header, map_node_error, node_session_id, replay_latency, replay_method,
    replay_request_id, replay_spec_from_row, replay_url,
};

fn edges(list: &[(&str, Option<&str>)]) -> Vec<(String, Option<String>)> {
    list.iter().map(|(a, b)| (a.to_string(), b.map(|p| p.to_string()))).collect()
}

#[test]
fn descendants_breadth_first() {
    let e = edges(&[
        ("root", None),
        ("a", Some("root")),
        ("b", Some("root")),
        ("c", Some("a")),
        ("d", Some("c")),
        ("x", Some("other")),
    ]);
    assert_eq!(descendants(&e, "root"), vec!["a", "b", "c", "d"]);
    assert_eq!(descendants(&e, "c"), vec!["d"]);
    assert!(descendants(&e, "d").is_empty());
    assert!(descendants(&e, "missing").is_empty());
}

#[test]
fn descendants_with_cycle_and_repeats() {
    let e = edges(&[("a", Some("b")), ("b", Some("a")), ("c", Some("a")), ("c", Some("b"))]);
    assert_eq!(descendants(&e, "a"), vec!["b", "c", "a"]);
}

#[test]
fn forbidden_headers() {
    for n in ["host", "content-length", "connection", "keep-alive", "transfer-encoding", "upgrade", "te", "trailer", "proxy-connection"] {
        assert!(is_forbidden_replay_header(n));
    }
    assert!(!is_forbidden_replay_header("authorization"));
    assert!(!is_forbidden_replay_header("x-api-key"));
}

#[test]
fn forwarding_and_credentials() {
    let mut h = Headers::new();
    h.append("host".to_string(), b"127.0.0.1:8080".to_vec());
    h.append("x-trace".to_string(), b"1".to_vec());
    h.append("x-trace".to_string(), b"2".to_vec());
    let mut f = forward_headers(&h);
    assert_eq!(f.len(), 1);
    assert_eq!(f.get("x-trace"), Some(&b"2".to_vec()));
    inject_replay_credentials(&mut f, "anthropic", Some("sk-ant"), Some("sk-oai"));
    assert_eq!(f.get("x-api-key"), Some(&b"sk-ant".to_vec()));
    let mut g = Headers::new();
    inject_replay_credentials(&mut g, "openai", Some("sk-ant"), Some("sk-oai"));
    assert_eq!(g.get("authorization"), Some(&b"Bearer sk-oai".to_vec()));
    let mut k = Headers::new();
    k.append("authorization".to_string(), b"Bearer mine".to_vec());
    inject_replay_credentials(&mut k, "openai", None, Some("sk-oai"));
    assert_eq!(k.get("authorization"), Some(&b"Bearer mine".to_vec()));
    let mut bad = Headers::new();
    inject_replay_credentials(&mut bad, "anthropic", Some("bad\nkey"), None);
    assert_eq!(bad.len(), 0);
    let mut none = Headers::new();
    inject_replay_credentials(&mut none, "other", Some("a"), Some("b"));
    assert_eq!(none.len(), 0);
}

#[test]
fn replay_target_method_and_ids() {
    assert_eq!(replay_url("anthropic", "https://api.anthropic.com", "https://api.openai.com", "/v1/messages"), "https://api.anthropic.com/v1/messages");
    assert_eq!(replay_url("openai", "https://a", "https://o", "/v1/chat/completions"), "https://o/v1/chat/completions");
    assert_eq!(replay_method("PUT"), "PUT");
    assert_eq!(replay_method("PURGE"), "PURGE");
    assert_eq!(replay_method(""), "POST");
    assert_eq!(replay_method("BAD METHOD"), "POST");
    assert_eq!(replay_request_id(Some("h1".into()), Some("b1".into())), "h1");
    assert_eq!(replay_request_id(None, Some("b1".into())), "b1");
    assert_eq!(replay_request_id(Some("".into()), Some("b1".into())), "-");
    assert_eq!(replay_request_id(None, None), "-");
    assert_eq!(replay_latency(100, 350), 250);
    assert_eq!(replay_latency(350, 100), 0);
}

#[test]
fn node_errors_and_rows() {
    assert_eq!(map_node_error("trace node not found".to_string()), (404, "trace node not found".to_string()));
    assert_eq!(map_node_error("disk full".to_string()), (500, "disk full".to_string()));
    assert_eq!(node_session_id(None), Err("trace node not found".to_string()));
    assert_eq!(node_session_id(Some(None)), Ok(String::new()));
    assert_eq!(node_session_id(Some(Some("s1".into()))), Ok("s1".to_string()));
    let spec = replay_spec_from_row("POST".into(), "openai".into(), None, "gpt".into(), None, None);
    assert_eq!((spec.target.as_str(), spec.session_id.as_str(), spec.body.len()), ("", "", 0));
    assert_eq!(check_replayable(&spec), Some((409, "node is not replayable (request body was not retained)")));
    let spec = replay_spec_from_row("POST".into(), "openai".into(), Some("/v1".into()), "gpt".into(), Some("s".into()), Some(vec![1]));
    assert_eq!(check_replayable(&spec), None);
}
