use tether::desktop::{
    already_running, app_data_dir, app_log_dir, clear_finished_child, find_proxy_binary,
    health_request, is_healthy_response, join_path, prepare_proxy_request, proxy_binary_candidates,
    proxy_environment, resource_candidates, runtime_paths_for, started_from, stop_proxy, upstream,
    wait_step, ChildState, ProxyRequest, WaitStep,
};

#[test]
fn path_joining() {
    assert_eq!(join_path("/home/u", ".cache"), "/home/u/.cache");
    assert_eq!(join_path("/home/u/", ".cache"), "/home/u/.cache");
    assert_eq!(join_path("", "Tether"), "Tether");
    assert_eq!(join_path("/x", "/abs"), "/abs");
}

#[test]
fn data_and_log_directories() {
    assert_eq!(app_data_dir(Some("/home/u"), None), Ok("/home/u/.local/share/Tether".to_string()));
    assert_eq!(app_data_dir(Some("/home/u"), Some("/data")), Ok("/data/Tether".to_string()));
    assert_eq!(app_data_dir(None, Some("/data")), Err("HOME is not set".to_string()));
    assert_eq!(app_log_dir(Some("/home/u"), None), Ok("/home/u/.cache/Tether".to_string()));
    let r = runtime_paths_for("/d", "/l");
    assert_eq!((r.database_path.as_str(), r.log_path.as_str()), ("/d/tether-cache.sqlite", "/l/proxy.log"));
    assert_eq!(upstream(None, "https://api.openai.com"), "https://api.openai.com");
    assert_eq!(upstream(Some("http://x".into()), "https://api.openai.com"), "http://x");
}

#[test]
fn binary_candidates_in_order() {
    assert_eq!(resource_candidates("/res"), vec![
        "/res/tether-proxy",
        "/res/tether-proxy-x86_64-unknown-linux-gnu",
        "/res/binaries/tether-proxy",
        "/res/binaries/tether-proxy-x86_64-unknown-linux-gnu",
    ]);
    let c = proxy_binary_candidates(None, Some("/repo"), Some("/opt/app"));
    assert_eq!(c, vec![
        "/repo/core/proxy/target/debug/tether-proxy",
        "/repo/core/proxy/target/release/tether-proxy",
        "/opt/app/tether-proxy",
        "/opt/app/../Resources/tether-proxy",
    ]);
    assert_eq!(proxy_binary_candidates(Some("/r"), None, None).len(), 4);
}

#[test]
fn binary_choice() {
    let c = vec!["a".to_string(), "b".to_string(), "c".to_string()];
    assert_eq!(find_proxy_binary(Some("/env"), true, &c, &vec![true, true, true]), Ok("/env".to_string()));
    assert_eq!(find_proxy_binary(Some("/env"), false, &c, &vec![false, true, true]), Ok("b".to_string()));
    assert_eq!(
        find_proxy_binary(None, false, &c, &vec![false, false, false]),
        Err("cannot find tether-proxy binary; build core/proxy first".to_string())
    );
}

#[test]
fn process_decisions() {
    let r = already_running();
    assert!(!r.started && r.already_running && r.binary_path.is_none());
    let r = started_from("/bin/p".into());
    assert!(r.started && !r.already_running);
    assert_eq!(r.binary_path.as_deref(), Some("/bin/p"));
    let env = proxy_environment(8080, "/d/db", "https://o", "https://a");
    assert_eq!(env[0], ("TETHER_ADDR".to_string(), "127.0.0.1:8080".to_string()));
    assert_eq!(env[1], ("TETHER_CACHE".to_string(), "on".to_string()));
    assert_eq!(env[2], ("TETHER_DB".to_string(), "/d/db".to_string()));
    assert_eq!(env[4], ("ANTHROPIC_UPSTREAM".to_string(), "https://a".to_string()));
    assert!(is_healthy_response(Some("HTTP/1.1 204 No Content\r\n\r\n")));
    assert!(is_healthy_response(Some("HTTP/1.1 200 OK")));
    assert!(!is_healthy_response(Some("HTTP/1.1 503 Unavailable")));
    assert!(!is_healthy_response(None));
    assert!(health_request().starts_with("GET /api/events/health HTTP/1.1\r\n"));
    assert!(matches!(wait_step(0, false, "p".into()), WaitStep::Retry));
    assert!(matches!(wait_step(18, false, "p".into()), WaitStep::Retry));
    match wait_step(19, false, "p".into()) {
        WaitStep::GiveUp(m) => assert_eq!(m, "local proxy did not become ready"),
        _ => panic!("expected to give up"),
    }
    assert!(matches!(wait_step(3, true, "p".into()), WaitStep::Ready(_)));
    assert_eq!(clear_finished_child(ChildState::Running), Err("proxy process is already starting".to_string()));
    assert_eq!(clear_finished_child(ChildState::Exited), Ok(true));
    assert_eq!(clear_finished_child(ChildState::Absent), Ok(false));
    assert!(stop_proxy(ChildState::Running));
    assert!(!stop_proxy(ChildState::Exited));
}

#[test]
fn ui_requests() {
    let p = prepare_proxy_request(ProxyRequest {
        method: "POST".into(),
        path: "/api/traces/n1/replay".into(),
        body: None,
        workspace_id: None,
    })
    .ok()
    .unwrap();
    assert_eq!(p.method, "POST");
    assert_eq!(p.url, "http://127.0.0.1:8080/api/traces/n1/replay");
    assert_eq!(p.body, "");
    assert_eq!(p.headers.get("x-tether-workspace"), Some(&b"local-default".to_vec()));
    assert_eq!(p.headers.get("content-type"), Some(&b"application/json".to_vec()));
    let p = prepare_proxy_request(ProxyRequest {
        method: "GET".into(),
        path: "/api/sessions".into(),
        body: Some("{}".into()),
        workspace_id: Some("bad\u{7f}".into()),
    })
    .ok()
    .unwrap();
    assert_eq!(p.headers.len(), 1);
    assert_eq!(p.body, "{}");
    assert_eq!(
        prepare_proxy_request(ProxyRequest { method: "G E T".into(), path: "/".into(), body: None, workspace_id: None }).err(),
        Some("invalid proxy method".to_string())
    );
}
