//! The desktop app's side of the local proxy: where its files and binary are,
//! how it is started, watched and stopped, and how UI requests are forwarded.
use vstd::prelude::*;

use crate::headers::{with_header, Headers};
use crate::http_syntax::{header_value_accepts, parse_method, valid_header_value, valid_method};
use crate::text::{append_str, chars_of, decimal, decimal_string, has_prefix, starts_with};
use vstd::utf8::encode_utf8;

verus! {

// ---------------------------------------------------------------------------
// Paths
// ---------------------------------------------------------------------------

/// `base` joined with `rel` as `PathBuf::push` does on Unix: an absolute `rel`
/// replaces `base`, else a `'/'` is put between them unless `base` is empty or
/// already ends with one.
pub open spec fn join_spec(base: Seq<char>, rel: Seq<char>) -> Seq<char> {
    if rel.len() > 0 && rel[0] == '/' {
        rel
    } else if base.len() == 0 {
        rel
    } else if base.last() == '/' {
        base + rel
    } else {
        base + "/"@ + rel
    }
}

/// `base` joined with `rel`.
pub fn join_path(base: &str, rel: &str) -> (r: String)
    ensures
        r@ == join_spec(base@, rel@),
{
    let b = chars_of(base);
    let r = chars_of(rel);
    if r.len() > 0 && r[0] == '/' {
        return String::from_str(rel);
    }
    if b.len() == 0 {
        return String::from_str(rel);
    }
    let mut out = String::from_str(base);
    if b[b.len() - 1] != '/' {
        append_str(&mut out, "/");
    }
    append_str(&mut out, rel);
    out
}

/// Where the proxy keeps its database and its log.
pub struct RuntimePaths {
    pub database_path: String,
    pub log_path: String,
}

/// The database and log paths inside the data and log directories.
pub fn runtime_paths_for(data_dir: &str, log_dir: &str) -> (r: RuntimePaths)
    ensures
        r.database_path@ == join_spec(data_dir@, "tether-cache.sqlite"@),
        r.log_path@ == join_spec(log_dir@, "proxy.log"@),
{
    RuntimePaths {
        database_path: join_path(data_dir, "tether-cache.sqlite"),
        log_path: join_path(log_dir, "proxy.log"),
    }
}

/// The data directory on Linux: `$XDG_DATA_HOME/Tether`, else
/// `$HOME/.local/share/Tether`; `HOME` must be set either way.
pub fn app_data_dir(home: Option<&str>, xdg_data_home: Option<&str>) -> (r: Result<String, String>)
    ensures
        match home {
            None => r matches Err(e) && e@ == "HOME is not set"@,
            Some(h) => r matches Ok(p) && p@ == join_spec(
                match xdg_data_home {
                    Some(x) => x@,
                    None => join_spec(h@, ".local/share"@),
                },
                "Tether"@,
            ),
        },
{
    let h = match home {
        Some(h) => h,
        None => {
            return Err(String::from_str("HOME is not set"));
        },
    };
    let base = match xdg_data_home {
        Some(x) => String::from_str(x),
        None => join_path(h, ".local/share"),
    };
    Ok(join_path(base.as_str(), "Tether"))
}

/// The log directory on Linux: `$XDG_CACHE_HOME/Tether`, else
/// `$HOME/.cache/Tether`; `HOME` must be set either way.
pub fn app_log_dir(home: Option<&str>, xdg_cache_home: Option<&str>) -> (r: Result<String, String>)
    ensures
        match home {
            None => r matches Err(e) && e@ == "HOME is not set"@,
            Some(h) => r matches Ok(p) && p@ == join_spec(
                match xdg_cache_home {
                    Some(x) => x@,
                    None => join_spec(h@, ".cache"@),
                },
                "Tether"@,
            ),
        },
{
    let h = match home {
        Some(h) => h,
        None => {
            return Err(String::from_str("HOME is not set"));
        },
    };
    let base = match xdg_cache_home {
        Some(x) => String::from_str(x),
        None => join_path(h, ".cache"),
    };
    Ok(join_path(base.as_str(), "Tether"))
}

/// An upstream URL: the configured one, else the default.
pub fn upstream(configured: Option<String>, fallback: &str) -> (r: String)
    ensures
        r@ == (match configured {
            Some(c) => c@,
            None => fallback@,
        }),
{
    match configured {
        Some(c) => c,
        None => String::from_str(fallback),
    }
}

/// The places a bundled proxy binary may be in the resource directory.
pub open spec fn resource_candidates_of(dir: Seq<char>) -> Seq<Seq<char>> {
    seq![
        join_spec(dir, "tether-proxy"@),
        join_spec(dir, "tether-proxy-x86_64-unknown-linux-gnu"@),
        join_spec(dir, "binaries/tether-proxy"@),
        join_spec(dir, "binaries/tether-proxy-x86_64-unknown-linux-gnu"@),
    ]
}

/// The places a bundled proxy binary may be in the resource directory.
pub fn resource_candidates(resource_dir: &str) -> (r: Vec<String>)
    ensures
        r@.map_values(|s: String| s@) == resource_candidates_of(resource_dir@),
{
    let r = vec![
        join_path(resource_dir, "tether-proxy"),
        join_path(resource_dir, "tether-proxy-x86_64-unknown-linux-gnu"),
        join_path(resource_dir, "binaries/tether-proxy"),
        join_path(resource_dir, "binaries/tether-proxy-x86_64-unknown-linux-gnu"),
    ];
    assert(r@.map_values(|s: String| s@) =~= resource_candidates_of(resource_dir@));
    r
}

/// Every place the proxy binary is looked for, in order: the resource directory,
/// the repository's debug and release builds, and beside the app.
pub open spec fn binary_candidates_of(
    resource_dir: Option<Seq<char>>,
    repo_root: Option<Seq<char>>,
    exe_dir: Option<Seq<char>>,
) -> Seq<Seq<char>> {
    (match resource_dir {
        Some(d) => resource_candidates_of(d),
        None => Seq::empty(),
    }) + (match repo_root {
        Some(r) => seq![
            join_spec(r, "core/proxy/target/debug/tether-proxy"@),
            join_spec(r, "core/proxy/target/release/tether-proxy"@),
        ],
        None => Seq::empty(),
    }) + (match exe_dir {
        Some(e) => seq![join_spec(e, "tether-proxy"@), join_spec(e, "../Resources/tether-proxy"@)],
        None => Seq::empty(),
    })
}

pub open spec fn opt_view(o: Option<&str>) -> Option<Seq<char>> {
    match o {
        Some(s) => Some(s@),
        None => None,
    }
}

/// Every place the proxy binary is looked for, in order.
pub fn proxy_binary_candidates(
    resource_dir: Option<&str>,
    repo_root: Option<&str>,
    exe_dir: Option<&str>,
) -> (r: Vec<String>)
    ensures
        r@.map_values(|s: String| s@) == binary_candidates_of(
            opt_view(resource_dir),
            opt_view(repo_root),
            opt_view(exe_dir),
        ),
{
    let mut r: Vec<String> = match resource_dir {
        Some(d) => resource_candidates(d),
        None => Vec::new(),
    };
    let ghost a = r@.map_values(|s: String| s@);
    if let Some(root) = repo_root {
        r.push(join_path(root, "core/proxy/target/debug/tether-proxy"));
        r.push(join_path(root, "core/proxy/target/release/tether-proxy"));
    }
    let ghost b = r@.map_values(|s: String| s@);
    assert(b =~= a + (match opt_view(repo_root) {
        Some(x) => seq![
            join_spec(x, "core/proxy/target/debug/tether-proxy"@),
            join_spec(x, "core/proxy/target/release/tether-proxy"@),
        ],
        None => Seq::<Seq<char>>::empty(),
    }));
    if let Some(dir) = exe_dir {
        r.push(join_path(dir, "tether-proxy"));
        r.push(join_path(dir, "../Resources/tether-proxy"));
    }
    assert(r@.map_values(|s: String| s@) =~= binary_candidates_of(
        opt_view(resource_dir),
        opt_view(repo_root),
        opt_view(exe_dir),
    ));
    r
}

/// The first of `candidates` that is a file, where `is_file[i]` says whether
/// `candidates[i]` is.
pub open spec fn first_file(candidates: Seq<Seq<char>>, is_file: Seq<bool>) -> Option<Seq<char>>
    decreases candidates.len(),
{
    if candidates.len() == 0 {
        None
    } else if is_file[0] {
        Some(candidates[0])
    } else {
        first_file(candidates.drop_first(), is_file.drop_first())
    }
}

/// The proxy binary: the `TETHER_PROXY_BINARY` path when it names a file, else
/// the first candidate that is a file.
pub fn find_proxy_binary(
    configured: Option<&str>,
    configured_is_file: bool,
    candidates: &Vec<String>,
    is_file: &Vec<bool>,
) -> (r: Result<String, String>)
    requires
        is_file@.len() == candidates@.len(),
    ensures
        configured is Some && configured_is_file ==> (r matches Ok(p) && p@ == configured.unwrap()@),
        !(configured is Some && configured_is_file) ==> match first_file(
            candidates@.map_values(|s: String| s@),
            is_file@,
        ) {
            Some(p) => r matches Ok(q) && q@ == p,
            None => r matches Err(e) && e@ == "cannot find tether-proxy binary; build core/proxy first"@,
        },
{
    if let Some(path) = configured {
        if configured_is_file {
            return Ok(String::from_str(path));
        }
    }
    let ghost cs = candidates@.map_values(|s: String| s@);
    let mut i: usize = 0;
    assert(cs.skip(0) =~= cs);
    assert(is_file@.skip(0) =~= is_file@);
    while i < candidates.len()
        invariant
            is_file@.len() == candidates@.len(),
            !(configured is Some && configured_is_file),
            cs == candidates@.map_values(|s: String| s@),
            i <= candidates@.len(),
            first_file(cs, is_file@) == first_file(cs.skip(i as int), is_file@.skip(i as int)),
        decreases candidates@.len() - i,
    {
        assert(cs.skip(i as int)[0] == cs[i as int]);
        assert(is_file@.skip(i as int)[0] == is_file@[i as int]);
        if is_file[i] {
            return Ok(candidates[i].clone());
        }
        assert(cs.skip(i as int).drop_first() =~= cs.skip(i + 1));
        assert(is_file@.skip(i as int).drop_first() =~= is_file@.skip(i + 1));
        i = i + 1;
    }
    Err(String::from_str("cannot find tether-proxy binary; build core/proxy first"))
}

// ---------------------------------------------------------------------------
// The proxy process
// ---------------------------------------------------------------------------

/// What starting the proxy came to.
pub struct ProxyStartResult {
    pub started: bool,
    pub already_running: bool,
    pub binary_path: Option<String>,
}

/// The proxy was already answering: nothing was started.
pub fn already_running() -> (r: ProxyStartResult)
    ensures
        !r.started,
        r.already_running,
        r.binary_path is None,
{
    ProxyStartResult { started: false, already_running: true, binary_path: None }
}

/// The proxy was started from `binary_path` and answers.
pub fn started_from(binary_path: String) -> (r: ProxyStartResult)
    ensures
        r.started,
        !r.already_running,
        r.binary_path == Some(binary_path),
{
    ProxyStartResult { started: true, already_running: false, binary_path: Some(binary_path) }
}

/// The environment the proxy is started with.
pub open spec fn proxy_env_of(port: u16, database_path: Seq<char>, openai: Seq<char>, anthropic: Seq<char>) -> Seq<(Seq<char>, Seq<char>)> {
    seq![
        ("TETHER_ADDR"@, "127.0.0.1:"@ + decimal(port as nat)),
        ("TETHER_CACHE"@, "on"@),
        ("TETHER_DB"@, database_path),
        ("OPENAI_UPSTREAM"@, openai),
        ("ANTHROPIC_UPSTREAM"@, anthropic),
    ]
}

/// The environment the proxy is started with: its address on the loopback
/// interface, the cache switched on, its database and its two upstreams.
pub fn proxy_environment(port: u16, database_path: &str, openai: &str, anthropic: &str) -> (r: Vec<
    (String, String),
>)
    ensures
        r@.map_values(|e: (String, String)| (e.0@, e.1@)) == proxy_env_of(
            port,
            database_path@,
            openai@,
            anthropic@,
        ),
{
    let mut addr = String::from_str("127.0.0.1:");
    let p = decimal_string(port as u64);
    append_str(&mut addr, p.as_str());
    let r = vec![
        (String::from_str("TETHER_ADDR"), addr),
        (String::from_str("TETHER_CACHE"), String::from_str("on")),
        (String::from_str("TETHER_DB"), String::from_str(database_path)),
        (String::from_str("OPENAI_UPSTREAM"), String::from_str(openai)),
        (String::from_str("ANTHROPIC_UPSTREAM"), String::from_str(anthropic)),
    ];
    assert(r@.map_values(|e: (String, String)| (e.0@, e.1@)) =~= proxy_env_of(
        port,
        database_path@,
        openai@,
        anthropic@,
    ));
    r
}

/// The health request the desktop app sends to the proxy.
pub fn health_request() -> (r: &'static str)
    ensures
        r@ == "GET /api/events/health HTTP/1.1\r\nHost: 127.0.0.1\r\nConnection: close\r\n\r\n"@,
{
    "GET /api/events/health HTTP/1.1\r\nHost: 127.0.0.1\r\nConnection: close\r\n\r\n"
}

/// The proxy is healthy when its whole answer could be read and its status is
/// 204 or 200.
pub fn is_healthy_response(response: Option<&str>) -> (r: bool)
    ensures
        r == match response {
            Some(s) => has_prefix(s@, "HTTP/1.1 204"@) || has_prefix(s@, "HTTP/1.1 200"@),
            None => false,
        },
{
    match response {
        Some(s) => {
            let c = chars_of(s);
            starts_with(c.as_slice(), "HTTP/1.1 204") || starts_with(c.as_slice(), "HTTP/1.1 200")
        },
        None => false,
    }
}

/// How many times the app checks that a started proxy answers.
pub open spec fn health_attempts() -> u32 {
    20
}

/// The next step while waiting for a started proxy, after health check number
/// `attempt` (from 0).
pub enum WaitStep {
    /// It answers: starting succeeded.
    Ready(ProxyStartResult),
    /// Wait 150 ms and check again.
    Retry,
    /// Wait 150 ms and give up with this message.
    GiveUp(String),
}

/// The next step while waiting for a started proxy.
pub fn wait_step(attempt: u32, healthy: bool, binary_path: String) -> (r: WaitStep)
    ensures
        healthy ==> (r matches WaitStep::Ready(s) && s.started && !s.already_running
            && s.binary_path == Some(binary_path)),
        !healthy && attempt + 1 < health_attempts() ==> r is Retry,
        !healthy && attempt + 1 >= health_attempts() ==> (r matches WaitStep::GiveUp(m) && m@
            == "local proxy did not become ready"@),
{
    if healthy {
        WaitStep::Ready(started_from(binary_path))
    } else if attempt < 19 {
        WaitStep::Retry
    } else {
        WaitStep::GiveUp(String::from_str("local proxy did not become ready"))
    }
}

/// What the app knows of the proxy process it started.
#[derive(Clone, Copy, PartialEq, Eq, Structural)]
pub enum ChildState {
    Absent,
    Exited,
    Running,
}

/// Before starting: a running child means a start is under way (refused), an
/// exited one is forgotten. `Ok(true)` asks to forget the child.
pub fn clear_finished_child(child: ChildState) -> (r: Result<bool, String>)
    ensures
        child == ChildState::Running ==> (r matches Err(e) && e@ == "proxy process is already starting"@),
        child == ChildState::Exited ==> r == Ok::<bool, String>(true),
        child == ChildState::Absent ==> r == Ok::<bool, String>(false),
{
    match child {
        ChildState::Running => Err(String::from_str("proxy process is already starting")),
        ChildState::Exited => Ok(true),
        ChildState::Absent => Ok(false),
    }
}

/// Stopping: only a running child is killed; the answer says whether one was.
pub fn stop_proxy(child: ChildState) -> (r: bool)
    ensures
        r == (child == ChildState::Running),
{
    match child {
        ChildState::Running => true,
        _ => false,
    }
}

// ---------------------------------------------------------------------------
// Requests from the UI
// ---------------------------------------------------------------------------

/// A request the UI sends to the proxy.
pub struct ProxyRequest {
    pub method: String,
    pub path: String,
    pub body: Option<String>,
    pub workspace_id: Option<String>,
}

/// The proxy's answer to the UI.
pub struct ProxyResponse {
    pub status: u16,
    pub body: String,
}

/// A UI request ready to send.
pub struct PreparedRequest {
    pub method: String,
    pub url: String,
    pub headers: Headers,
    pub body: String,
}

/// The headers of a UI request: the workspace (`local-default` when none is
/// given, left out when it is not a valid header value) and a JSON content type.
pub open spec fn ui_headers_of(workspace_id: Option<Seq<char>>) -> Seq<(Seq<char>, Seq<u8>)> {
    let workspace = match workspace_id {
        Some(w) => w,
        None => "local-default"@,
    };
    let h = if valid_header_value(workspace) {
        with_header(Seq::empty(), "x-tether-workspace"@, encode_utf8(workspace))
    } else {
        Seq::empty()
    };
    with_header(h, "content-type"@, encode_utf8("application/json"@))
}

fn utf8_bytes(s: &str) -> (r: Vec<u8>)
    ensures
        r@ == encode_utf8(s@),
{
    let b = s.as_bytes();
    let mut r: Vec<u8> = Vec::new();
    let mut i: usize = 0;
    while i < b.len()
        invariant
            i <= b@.len(),
            b@ == encode_utf8(s@),
            r@ == b@.take(i as int),
        decreases b@.len() - i,
    {
        r.push(b[i]);
        assert(r@ =~= b@.take(i + 1));
        i = i + 1;
    }
    assert(b@.take(b@.len() as int) =~= b@);
    r
}

/// The headers of a UI request.
pub fn ui_headers(workspace_id: Option<String>) -> (r: Headers)
    ensures
        r@ == ui_headers_of(
            match workspace_id {
                Some(w) => Some(w@),
                None => None,
            },
        ),
{
    let workspace = match workspace_id {
        Some(w) => w,
        None => String::from_str("local-default"),
    };
    let mut h = Headers::new();
    if header_value_accepts(workspace.as_str()) {
        h.insert(String::from_str("x-tether-workspace"), utf8_bytes(workspace.as_str()));
    }
    h.insert(String::from_str("content-type"), utf8_bytes("application/json"));
    h
}

/// A UI request ready to send to the proxy on port 8080, or why it cannot be.
pub fn prepare_proxy_request(request: ProxyRequest) -> (r: Result<PreparedRequest, String>)
    ensures
        !valid_method(request.method@) ==> (r matches Err(e) && e@ == "invalid proxy method"@),
        valid_method(request.method@) ==> (r matches Ok(p) && p.method@ == request.method@ && p.url@
            == "http://127.0.0.1:8080"@ + request.path@ && p.headers@ == ui_headers_of(
            match request.workspace_id {
                Some(w) => Some(w@),
                None => None,
            },
        ) && p.body@ == (match request.body {
            Some(b) => b@,
            None => Seq::<char>::empty(),
        })),
{
    let method = match parse_method(request.method.as_str()) {
        Some(m) => m,
        None => {
            return Err(String::from_str("invalid proxy method"));
        },
    };
    let mut url = String::from_str("http://127.0.0.1:8080");
    append_str(&mut url, request.path.as_str());
    let headers = ui_headers(request.workspace_id);
    let body = match request.body {
        Some(b) => b,
        None => String::new(),
    };
    Ok(PreparedRequest { method, url, headers, body })
}


/// The binary found among the candidates is the first one that is a file: it is
/// a file, and no candidate before it is; there is none exactly when no
/// candidate is a file.
pub proof fn law_first_file(candidates: Seq<Seq<char>>, is_file: Seq<bool>)
    requires
        is_file.len() == candidates.len(),
    ensures
        first_file(candidates, is_file) is None <==> forall|i: int|
            0 <= i < is_file.len() ==> !#[trigger] is_file[i],
        first_file(candidates, is_file) is Some ==> exists|i: int|
            #![trigger is_file[i]]
            0 <= i < candidates.len() && is_file[i] && candidates[i] == first_file(
                candidates,
                is_file,
            ).unwrap() && forall|j: int| 0 <= j < i ==> !#[trigger] is_file[j],
    decreases candidates.len(),
{
    if candidates.len() > 0 {
        let c = candidates.drop_first();
        let f = is_file.drop_first();
        law_first_file(c, f);
        if !is_file[0] {
            if first_file(c, f) is None {
                assert forall|i: int| 0 <= i < is_file.len() implies !#[trigger] is_file[i] by {
                    if i > 0 {
                        assert(is_file[i] == f[i - 1]);
                    }
                }
            } else {
                let i = choose|i: int|
                    #![trigger f[i]]
                    0 <= i < c.len() && f[i] && c[i] == first_file(c, f).unwrap() && forall|j: int|
                        0 <= j < i ==> !#[trigger] f[j];
                assert(is_file[i + 1] == f[i]);
                assert(candidates[i + 1] == c[i]);
                assert forall|j: int| 0 <= j < i + 1 implies !#[trigger] is_file[j] by {
                    if j > 0 {
                        assert(is_file[j] == f[j - 1]);
                    }
                }
            }
            if exists|i: int| 0 <= i < is_file.len() && #[trigger] is_file[i] {
                let i = choose|i: int| 0 <= i < is_file.len() && #[trigger] is_file[i];
                assert(f[i - 1] == is_file[i]);
            }
        }
    }
}

/// Joining keeps both parts: an absolute `rel` replaces `base`; otherwise the
/// result starts with `base` and ends with `rel`, with exactly one `'/'` added
/// when `base` is not empty and does not already end with one.
pub proof fn law_join_keeps_parts(base: Seq<char>, rel: Seq<char>)
    ensures
        rel.len() > 0 && rel[0] == '/' ==> join_spec(base, rel) == rel,
        !(rel.len() > 0 && rel[0] == '/') ==> has_prefix(join_spec(base, rel), base) && join_spec(
            base,
            rel,
        ).len() == base.len() + rel.len() + (if base.len() > 0 && base.last() != '/' {
            1int
        } else {
            0
        }) && join_spec(base, rel).subrange(join_spec(base, rel).len() - rel.len(), join_spec(base, rel).len() as int)
            == rel,
{
    reveal_strlit("/");
    let j = join_spec(base, rel);
    if !(rel.len() > 0 && rel[0] == '/') {
        assert(j.subrange(0, base.len() as int) =~= base);
        assert(j.subrange(j.len() - rel.len(), j.len() as int) =~= rel);
    }
}

} // verus!
