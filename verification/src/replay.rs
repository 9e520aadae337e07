//! Replaying a stored trace node against its provider, and finding the nodes
//! that depend on it.
use vstd::prelude::*;
use vstd::utf8::encode_utf8;

use crate::headers::{header_value, law_header_set_then_read, with_header, Headers};
use crate::http_syntax::{header_value_accepts, parse_method, valid_header_value, valid_method};
use crate::flags::names;
use crate::text::{append_str, chars_of, str_eq};

verus! {

/// Connection-level headers that a replay does not forward.
pub open spec fn forbidden_header(name: Seq<char>) -> bool {
    ||| name == "host"@
    ||| name == "content-length"@
    ||| name == "connection"@
    ||| name == "keep-alive"@
    ||| name == "transfer-encoding"@
    ||| name == "upgrade"@
    ||| name == "te"@
    ||| name == "trailer"@
    ||| name == "proxy-connection"@
}

/// Whether a replay leaves the header named `name` out.
pub fn is_forbidden_replay_header(name: &str) -> (r: bool)
    ensures
        r == forbidden_header(name@),
{
    str_eq(name, "host") || str_eq(name, "content-length") || str_eq(name, "connection") || str_eq(
        name,
        "keep-alive",
    ) || str_eq(name, "transfer-encoding") || str_eq(name, "upgrade") || str_eq(name, "te")
        || str_eq(name, "trailer") || str_eq(name, "proxy-connection")
}

/// The headers a replay forwards: the caller's, in order, each set in turn
/// (a later value of a name replacing an earlier one), without the forbidden ones.
pub open spec fn forwarded(h: Seq<(Seq<char>, Seq<u8>)>) -> Seq<(Seq<char>, Seq<u8>)>
    decreases h.len(),
{
    if h.len() == 0 {
        h
    } else {
        let acc = forwarded(h.drop_last());
        if forbidden_header(h.last().0) {
            acc
        } else {
            with_header(acc, h.last().0, h.last().1)
        }
    }
}

/// The headers a replay forwards from the caller's.
pub fn forward_headers(incoming: &Headers) -> (r: Headers)
    ensures
        r@ == forwarded(incoming@),
{
    let mut out = Headers::new();
    let mut i: usize = 0;
    assert(incoming@.take(0) =~= Seq::<(Seq<char>, Seq<u8>)>::empty());
    while i < incoming.len()
        invariant
            i <= incoming@.len(),
            out@ == forwarded(incoming@.take(i as int)),
        decreases incoming@.len() - i,
    {
        let (name, value) = incoming.entry(i);
        assert(incoming@.take(i + 1).drop_last() =~= incoming@.take(i as int));
        if !is_forbidden_replay_header(name.as_str()) {
            out.insert(name.clone(), crate::headers::copy_bytes(value));
        }
        i = i + 1;
    }
    assert(incoming@.take(incoming@.len() as int) =~= incoming@);
    out
}

/// The headers after the proxy's own provider key is added, when the caller
/// sent none: `x-api-key` for Anthropic, `authorization: Bearer` for OpenAI.
/// A key that is not a valid header value is left out.
pub open spec fn with_credentials(
    h: Seq<(Seq<char>, Seq<u8>)>,
    provider: Seq<char>,
    anthropic_key: Option<Seq<char>>,
    openai_key: Option<Seq<char>>,
) -> Seq<(Seq<char>, Seq<u8>)> {
    if provider == "anthropic"@ && header_value(h, "x-api-key"@) is None {
        match anthropic_key {
            Some(k) => if valid_header_value(k) {
                with_header(h, "x-api-key"@, encode_utf8(k))
            } else {
                h
            },
            None => h,
        }
    } else if provider == "openai"@ && header_value(h, "authorization"@) is None {
        match openai_key {
            Some(k) => if valid_header_value("Bearer "@ + k) {
                with_header(h, "authorization"@, encode_utf8("Bearer "@ + k))
            } else {
                h
            },
            None => h,
        }
    } else {
        h
    }
}

fn bytes_of(s: &str) -> (r: Vec<u8>)
    ensures
        r@ == encode_utf8(s@),
{
    let b = s.as_bytes();
    let mut r: Vec<u8> = Vec::new();
    let mut i: usize = 0;
    while i < b.len()
        invariant
            i <= b@.len(),
            b@ == encode_utf8(s@),
            r@ == b@.take(i as int),
        decreases b@.len() - i,
    {
        r.push(b[i]);
        assert(r@ =~= b@.take(i + 1));
        i = i + 1;
    }
    assert(b@.take(b@.len() as int) =~= b@);
    r
}

/// Adds the proxy's own provider key to a replay's headers.
pub fn inject_replay_credentials(
    headers: &mut Headers,
    provider: &str,
    anthropic_key: Option<&str>,
    openai_key: Option<&str>,
)
    ensures
        final(headers)@ == with_credentials(
            old(headers)@,
            provider@,
            match anthropic_key {
                Some(k) => Some(k@),
                None => None,
            },
            match openai_key {
                Some(k) => Some(k@),
                None => None,
            },
        ),
{
    if str_eq(provider, "anthropic") && !headers.contains_key("x-api-key") {
        if let Some(key) = anthropic_key {
            if header_value_accepts(key) {
                headers.insert(String::from_str("x-api-key"), bytes_of(key));
            }
        }
    } else if str_eq(provider, "openai") && !headers.contains_key("authorization") {
        if let Some(key) = openai_key {
            let mut value = String::from_str("Bearer ");
            append_str(&mut value, key);
            if header_value_accepts(value.as_str()) {
                headers.insert(String::from_str("authorization"), bytes_of(value.as_str()));
            }
        }
    }
}

/// The URL a node is replayed against: the Anthropic upstream for Anthropic
/// nodes, the OpenAI upstream for all others, followed by the request target.
pub fn replay_url(provider: &str, anthropic_upstream: &str, openai_upstream: &str, target: &str) -> (r:
    String)
    ensures
        r@ == (if provider@ == "anthropic"@ {
            anthropic_upstream@
        } else {
            openai_upstream@
        }) + target@,
{
    let mut url = if str_eq(provider, "anthropic") {
        String::from_str(anthropic_upstream)
    } else {
        String::from_str(openai_upstream)
    };
    append_str(&mut url, target);
    url
}

/// The method a node is replayed with: its stored method when that is a valid
/// method name, else `POST`.
pub fn replay_method(method: &str) -> (r: String)
    ensures
        r@ == (if valid_method(method@) {
            method@
        } else {
            "POST"@
        }),
{
    match parse_method(method) {
        Some(m) => m,
        None => String::from_str("POST"),
    }
}

/// The request id recorded for a replay: the upstream header's, else the one in
/// the response body; an empty one gives `"-"`.
pub open spec fn replay_request_id_of(header_id: Option<Seq<char>>, body_id: Option<Seq<char>>) -> Seq<char> {
    let chosen = if header_id is Some {
        header_id
    } else {
        body_id
    };
    match chosen {
        Some(id) => if id.len() > 0 {
            id
        } else {
            "-"@
        },
        None => "-"@,
    }
}

/// The request id recorded for a replay.
pub fn replay_request_id(header_id: Option<String>, body_id: Option<String>) -> (r: String)
    ensures
        r@ == replay_request_id_of(
            match header_id {
                Some(s) => Some(s@),
                None => None,
            },
            match body_id {
                Some(s) => Some(s@),
                None => None,
            },
        ),
{
    let chosen = match header_id {
        Some(h) => Some(h),
        None => body_id,
    };
    match chosen {
        Some(id) => {
            let c = chars_of(id.as_str());
            if c.len() > 0 {
                id
            } else {
                String::from_str("-")
            }
        },
        None => String::from_str("-"),
    }
}

/// The latency of a replay in milliseconds, never negative.
pub fn replay_latency(started_ms: i64, finished_ms: i64) -> (r: i64)
    requires
        i64::MIN <= finished_ms - started_ms <= i64::MAX,
    ensures
        r == (if finished_ms - started_ms > 0 {
            finished_ms - started_ms
        } else {
            0
        }),
{
    let d = finished_ms - started_ms;
    if d > 0 {
        d
    } else {
        0
    }
}

/// The HTTP status of a failed node operation: 404 when the node does not exist,
/// else 500.
pub fn map_node_error(message: String) -> (r: (u16, String))
    ensures
        r.1 == message,
        r.0 == (if message@ == "trace node not found"@ {
            404u16
        } else {
            500u16
        }),
{
    if str_eq(message.as_str(), "trace node not found") {
        (404, message)
    } else {
        (500, message)
    }
}

/// The session of a node from its row: no row means the node does not exist; a
/// missing session is the empty one.
pub fn node_session_id(row: Option<Option<String>>) -> (r: Result<String, String>)
    ensures
        match row {
            None => r matches Err(e) && e@ == "trace node not found"@,
            Some(None) => r matches Ok(s) && s@ == Seq::<char>::empty(),
            Some(Some(s)) => r == Ok::<String, String>(s),
        },
{
    match row {
        None => Err(String::from_str("trace node not found")),
        Some(None) => Ok(String::new()),
        Some(Some(s)) => Ok(s),
    }
}

/// What a replay needs of a stored node.
pub struct ReplaySpec {
    pub method: String,
    pub provider: String,
    pub target: String,
    pub model: String,
    pub session_id: String,
    pub body: Vec<u8>,
}

/// The replay spec from a stored row; absent target, session and body are empty.
pub fn replay_spec_from_row(
    method: String,
    provider: String,
    target: Option<String>,
    model: String,
    session_id: Option<String>,
    body: Option<Vec<u8>>,
) -> (r: ReplaySpec)
    ensures
        r.method == method,
        r.provider == provider,
        r.model == model,
        r.target@ == (match target {
            Some(t) => t@,
            None => Seq::<char>::empty(),
        }),
        r.session_id@ == (match session_id {
            Some(t) => t@,
            None => Seq::<char>::empty(),
        }),
        r.body@ == (match body {
            Some(b) => b@,
            None => Seq::<u8>::empty(),
        }),
{
    ReplaySpec {
        method,
        provider,
        target: match target {
            Some(t) => t,
            None => String::new(),
        },
        model,
        session_id: match session_id {
            Some(t) => t,
            None => String::new(),
        },
        body: match body {
            Some(b) => b,
            None => Vec::new(),
        },
    }
}

/// A node whose request body was not kept cannot be replayed: 409 with this reason.
pub fn check_replayable(spec: &ReplaySpec) -> (r: Option<(u16, &'static str)>)
    ensures
        spec.body@.len() == 0 ==> (r matches Some(x) && x.0 == 409 && x.1@
            == "node is not replayable (request body was not retained)"@),
        spec.body@.len() > 0 ==> r is None,
{
    if spec.body.len() == 0 {
        Some((409, "node is not replayable (request body was not retained)"))
    } else {
        None
    }
}

// ---------------------------------------------------------------------------
// Downstream nodes
// ---------------------------------------------------------------------------

/// The `(id, parent)` edges of the nodes of a session, as values.
pub open spec fn edges_view(edges: Seq<(String, Option<String>)>) -> Seq<(Seq<char>, Option<Seq<char>>)> {
    edges.map_values(
        |e: (String, Option<String>)|
            (
                e.0@,
                match e.1 {
                    Some(p) => Some(p@),
                    None => None,
                },
            ),
    )
}

/// `child` is a node whose parent is `parent`.
pub open spec fn is_child(e: Seq<(Seq<char>, Option<Seq<char>>)>, parent: Seq<char>, child: Seq<char>) -> bool {
    exists|j: int| 0 <= j < e.len() && e[j].0 == child && e[j].1 == Some(parent)
}

/// `x` is the id of some node.
pub open spec fn is_node(e: Seq<(Seq<char>, Option<Seq<char>>)>, x: Seq<char>) -> bool {
    exists|j: int| 0 <= j < e.len() && e[j].0 == x
}

/// The `i`-th step of `p` goes from a node to one of its children.
pub open spec fn step_ok(e: Seq<(Seq<char>, Option<Seq<char>>)>, p: Seq<Seq<char>>, i: int) -> bool {
    is_child(e, p[i], p[i + 1])
}

/// `n` lies below `root`: a chain of one or more parent-to-child steps leads from
/// `root` to `n`.
pub open spec fn descends(e: Seq<(Seq<char>, Option<Seq<char>>)>, root: Seq<char>, n: Seq<char>) -> bool {
    exists|p: Seq<Seq<char>>|
        p.len() >= 2 && p[0] == root && p.last() == n && forall|i: int|
            0 <= i < p.len() - 1 ==> #[trigger] step_ok(e, p, i)
}

/// The children of `parent`, in the order of the edges.
pub open spec fn children_of(e: Seq<(Seq<char>, Option<Seq<char>>)>, parent: Seq<char>) -> Seq<Seq<char>>
    decreases e.len(),
{
    if e.len() == 0 {
        Seq::empty()
    } else {
        let c = children_of(e.drop_last(), parent);
        if e.last().1 == Some(parent) {
            c.push(e.last().0)
        } else {
            c
        }
    }
}

/// The children of each node of `s` in turn.
pub open spec fn children_of_each(e: Seq<(Seq<char>, Option<Seq<char>>)>, s: Seq<Seq<char>>) -> Seq<Seq<char>>
    decreases s.len(),
{
    if s.len() == 0 {
        Seq::empty()
    } else {
        children_of_each(e, s.drop_last()) + children_of(e, s.last())
    }
}

/// `s` with every element after its first appearance left out.
pub open spec fn first_occurrences(s: Seq<Seq<char>>) -> Seq<Seq<char>>
    decreases s.len(),
{
    if s.len() == 0 {
        s
    } else {
        let d = first_occurrences(s.drop_last());
        if d.contains(s.last()) {
            d
        } else {
            d.push(s.last())
        }
    }
}

/// `x` is a child of `root` or of one of the nodes in `prefix`.
pub open spec fn has_parent_in(
    e: Seq<(Seq<char>, Option<Seq<char>>)>,
    root: Seq<char>,
    prefix: Seq<Seq<char>>,
    x: Seq<char>,
) -> bool {
    is_child(e, root, x) || exists|k: int| 0 <= k < prefix.len() && #[trigger] is_child(e, prefix[k], x)
}

/// Parents come first: each node of `out` is a child of `root` or of a node
/// listed before it.
pub open spec fn parents_first(
    e: Seq<(Seq<char>, Option<Seq<char>>)>,
    root: Seq<char>,
    out: Seq<Seq<char>>,
) -> bool {
    forall|i: int| 0 <= i < out.len() ==> #[trigger] has_parent_in(e, root, out.take(i), out[i])
}

proof fn lemma_parent_in_longer(
    e: Seq<(Seq<char>, Option<Seq<char>>)>,
    root: Seq<char>,
    p: Seq<Seq<char>>,
    q: Seq<Seq<char>>,
    x: Seq<char>,
)
    requires
        has_parent_in(e, root, p, x),
        p.len() <= q.len(),
        q.take(p.len() as int) == p,
    ensures
        has_parent_in(e, root, q, x),
{
    if !is_child(e, root, x) {
        let k = choose|k: int| 0 <= k < p.len() && #[trigger] is_child(e, p[k], x);
        assert(q[k] == q.take(p.len() as int)[k]);
        assert(is_child(e, q[k], x));
    }
}

proof fn lemma_parents_first_push(
    e: Seq<(Seq<char>, Option<Seq<char>>)>,
    root: Seq<char>,
    out: Seq<Seq<char>>,
    x: Seq<char>,
)
    requires
        parents_first(e, root, out),
        has_parent_in(e, root, out, x),
    ensures
        parents_first(e, root, out.push(x)),
{
    let o = out.push(x);
    assert forall|i: int| 0 <= i < o.len() implies #[trigger] has_parent_in(e, root, o.take(i), o[i]) by {
        if i < out.len() {
            assert(o.take(i) =~= out.take(i));
            assert(o[i] == out[i]);
            assert(has_parent_in(e, root, out.take(i), out[i]));
        } else {
            assert(o.take(i) =~= out);
        }
    }
}

proof fn lemma_child_of_root(e: Seq<(Seq<char>, Option<Seq<char>>)>, root: Seq<char>, c: Seq<char>)
    requires
        is_child(e, root, c),
    ensures
        descends(e, root, c),
{
    let p = seq![root, c];
    assert(step_ok(e, p, 0));
    assert forall|i: int| 0 <= i < p.len() - 1 implies #[trigger] step_ok(e, p, i) by {}
    assert(p[0] == root);
    assert(p.last() == c);
}

proof fn lemma_descends_extend(
    e: Seq<(Seq<char>, Option<Seq<char>>)>,
    root: Seq<char>,
    a: Seq<char>,
    b: Seq<char>,
)
    requires
        descends(e, root, a),
        is_child(e, a, b),
    ensures
        descends(e, root, b),
{
    let p = choose|p: Seq<Seq<char>>|
        p.len() >= 2 && p[0] == root && p.last() == a && forall|i: int|
            0 <= i < p.len() - 1 ==> #[trigger] step_ok(e, p, i);
    let q = p.push(b);
    assert forall|i: int| 0 <= i < q.len() - 1 implies #[trigger] step_ok(e, q, i) by {
        if i < p.len() - 1 {
            assert(step_ok(e, p, i));
            assert(q[i] == p[i] && q[i + 1] == p[i + 1]);
        } else {
            assert(q[i] == a && q[i + 1] == b);
        }
    }
    assert(q.last() == b);
}

proof fn lemma_closed_contains_descendants(
    e: Seq<(Seq<char>, Option<Seq<char>>)>,
    root: Seq<char>,
    out: Seq<Seq<char>>,
    n: Seq<char>,
)
    requires
        forall|c: Seq<char>| is_child(e, root, c) ==> out.contains(c),
        forall|x: Seq<char>, c: Seq<char>| out.contains(x) && is_child(e, x, c) ==> out.contains(c),
        descends(e, root, n),
    ensures
        out.contains(n),
{
    let p = choose|p: Seq<Seq<char>>|
        p.len() >= 2 && p[0] == root && p.last() == n && forall|i: int|
            0 <= i < p.len() - 1 ==> #[trigger] step_ok(e, p, i);
    lemma_path_in_closed(e, root, out, p, p.len() - 1);
}

proof fn lemma_path_in_closed(
    e: Seq<(Seq<char>, Option<Seq<char>>)>,
    root: Seq<char>,
    out: Seq<Seq<char>>,
    p: Seq<Seq<char>>,
    k: int,
)
    requires
        forall|c: Seq<char>| is_child(e, root, c) ==> out.contains(c),
        forall|x: Seq<char>, c: Seq<char>| out.contains(x) && is_child(e, x, c) ==> out.contains(c),
        p.len() >= 2,
        p[0] == root,
        forall|i: int| 0 <= i < p.len() - 1 ==> #[trigger] step_ok(e, p, i),
        1 <= k < p.len(),
    ensures
        out.contains(p[k]),
    decreases k,
{
    assert(step_ok(e, p, k - 1));
    if k > 1 {
        lemma_path_in_closed(e, root, out, p, k - 1);
    }
}

proof fn lemma_distinct_nodes_bounded(e: Seq<(Seq<char>, Option<Seq<char>>)>, out: Seq<Seq<char>>)
    requires
        out.no_duplicates(),
        forall|i: int| 0 <= i < out.len() ==> is_node(e, #[trigger] out[i]),
    ensures
        out.len() <= e.len(),
{
    broadcast use vstd::seq_lib::seq_to_set_is_finite;

    let ids = e.map_values(|x: (Seq<char>, Option<Seq<char>>)| x.0);
    out.unique_seq_to_set();
    ids.lemma_cardinality_of_set();
    assert forall|x: Seq<char>| out.to_set().contains(x) implies ids.to_set().contains(x) by {
        let i = choose|i: int| 0 <= i < out.len() && out[i] == x;
        assert(is_node(e, out[i]));
        let j = choose|j: int| 0 <= j < e.len() && e[j].0 == x;
        assert(ids[j] == x);
    }
    vstd::set_lib::lemma_len_subset(out.to_set(), ids.to_set());
}

/// The nodes whose parent is `parent`, in the order of the edges.
fn children(edges: &Vec<(String, Option<String>)>, parent: &str) -> (r: Vec<String>)
    ensures
        r@.len() <= edges@.len(),
        forall|i: int| 0 <= i < r@.len() ==> is_child(edges_view(edges@), parent@, #[trigger] r@[i]@),
        forall|c: Seq<char>| is_child(edges_view(edges@), parent@, c) ==> names(r@).contains(c),
        names(r@) == children_of(edges_view(edges@), parent@),
{
    let ghost e = edges_view(edges@);
    let mut r: Vec<String> = Vec::new();
    let mut j: usize = 0;
    while j < edges.len()
        invariant
            e == edges_view(edges@),
            j <= edges@.len(),
            r@.len() <= j,
            names(r@) == children_of(e.take(j as int), parent@),
            forall|i: int| 0 <= i < r@.len() ==> is_child(e, parent@, #[trigger] r@[i]@),
            forall|k: int|
                0 <= k < j && e[k].1 == Some(parent@) ==> names(r@).contains(#[trigger] e[k].0),
        decreases edges@.len() - j,
    {
        let edge = &edges[j];
        assert(e[j as int].0 == edge.0@);
        assert(e.take(j + 1).drop_last() =~= e.take(j as int));
        assert(e.take(j + 1).last() == e[j as int]);
        match &edge.1 {
            Some(p) => {
                assert(e[j as int].1 == Some(p@));
                if str_eq(p.as_str(), parent) {
                    let ghost before = r@;
                    r.push(edge.0.clone());
                    proof {
                        assert(names(r@) == names(before).push(edge.0@));
                        assert(names(r@)[r@.len() - 1] == e[j as int].0);
                        assert forall|k: int|
                            0 <= k < j + 1 && e[k].1 == Some(parent@) implies names(r@).contains(
                            #[trigger] e[k].0,
                        ) by {
                            if k < j {
                                let m = choose|m: int|
                                    0 <= m < names(before).len() && names(before)[m] == e[k].0;
                                assert(names(r@)[m] == e[k].0);
                            }
                        }
                    }
                }
            },
            None => {
                assert(e[j as int].1 == None::<Seq<char>>);
            },
        }
        j = j + 1;
    }
    proof {
        assert(e.take(e.len() as int) =~= e);
        assert forall|c: Seq<char>| is_child(e, parent@, c) implies names(r@).contains(c) by {
            let k = choose|k: int| 0 <= k < e.len() && e[k].0 == c && e[k].1 == Some(parent@);
            assert(names(r@).contains(e[k].0));
        }
    }
    r
}

/// The nodes below `root`, each once: the ones a change to `root` makes stale.
/// They come breadth first: `root`'s children, then the children of each listed
/// node in turn, each in the order of the edges, every node where it first appears.
pub fn descendants(edges: &Vec<(String, Option<String>)>, root: &str) -> (r: Vec<String>)
    ensures
        names(r@).no_duplicates(),
        forall|x: Seq<char>| names(r@).contains(x) <==> descends(edges_view(edges@), root@, x),
        parents_first(edges_view(edges@), root@, names(r@)),
        names(r@) == first_occurrences(
            children_of(edges_view(edges@), root@) + children_of_each(edges_view(edges@), names(r@)),
        ),
{
    let ghost e = edges_view(edges@);
    let n = edges.len();
    let mut queue = children(edges, root);
    let mut head: usize = 0;
    let mut out: Vec<String> = Vec::new();
    proof {
        assert forall|i: int| 0 <= i < queue@.len() implies descends(e, root@, #[trigger] queue@[i]@) by {
            lemma_child_of_root(e, root@, queue@[i]@);
        }
        assert(queue@.subrange(0, queue@.len() as int) =~= queue@);
        assert forall|i: int| 0 <= i < queue@.len() implies has_parent_in(e, root@, names(out@), #[trigger] queue@[i]@) by {
            assert(is_child(e, root@, queue@[i]@));
        }
        assert(parents_first(e, root@, names(out@)));
        assert(names(queue@) =~= children_of(e, root@) + children_of_each(e, names(out@)));
        assert(names(out@) =~= first_occurrences(names(queue@).take(0)));
    }
    while head < queue.len()
        invariant
            e == edges_view(edges@),
            n == edges@.len(),
            head <= queue@.len(),
            names(out@).no_duplicates(),
            out@.len() <= n,
            forall|i: int| 0 <= i < out@.len() ==> descends(e, root@, #[trigger] out@[i]@),
            forall|i: int| 0 <= i < out@.len() ==> is_node(e, #[trigger] out@[i]@),
            forall|i: int| head <= i < queue@.len() ==> descends(e, root@, #[trigger] queue@[i]@),
            forall|i: int| head <= i < queue@.len() ==> is_node(e, #[trigger] queue@[i]@),
            parents_first(e, root@, names(out@)),
            names(queue@) == children_of(e, root@) + children_of_each(e, names(out@)),
            names(out@) == first_occurrences(names(queue@).take(head as int)),
            forall|i: int|
                head <= i < queue@.len() ==> has_parent_in(e, root@, names(out@), #[trigger] queue@[i]@),
            forall|c: Seq<char>|
                is_child(e, root@, c) ==> names(out@).contains(c) || names(
                    queue@.subrange(head as int, queue@.len() as int),
                ).contains(c),
            forall|x: Seq<char>, c: Seq<char>|
                names(out@).contains(x) && is_child(e, x, c) ==> names(out@).contains(c) || names(
                    queue@.subrange(head as int, queue@.len() as int),
                ).contains(c),
        decreases (n - out@.len()) * (n + 1) + (queue@.len() - head),
    {
        let ghost old_out = out@;
        let ghost old_queue = queue@;
        let ghost old_head = head;
        let ghost measure = (n - out@.len()) * (n + 1) + (queue@.len() - head);
        let node = queue[head].clone();
        head = head + 1;
        let ghost rest_old = names(old_queue.subrange(old_head as int, old_queue.len() as int));
        assert(rest_old =~= seq![node@] + names(queue@.subrange(head as int, queue@.len() as int)));
        assert(names(queue@).take(head as int).drop_last() =~= names(queue@).take(old_head as int));
        assert(names(queue@).take(head as int).last() == node@);
        if crate::flags::contains_string(&out, node.as_str()) {
            proof {
                assert(names(out@) == first_occurrences(names(queue@).take(head as int)));
                assert forall|c: Seq<char>|
                    is_child(e, root@, c) implies names(out@).contains(c) || names(
                    queue@.subrange(head as int, queue@.len() as int),
                ).contains(c) by {
                    if rest_old.contains(c) && c != node@ {
                        let m = choose|m: int| 0 <= m < rest_old.len() && rest_old[m] == c;
                        assert(m > 0);
                        assert(names(queue@.subrange(head as int, queue@.len() as int))[m - 1] == c);
                    }
                }
                assert forall|x: Seq<char>, c: Seq<char>|
                    names(out@).contains(x) && is_child(e, x, c) implies names(out@).contains(c)
                    || names(queue@.subrange(head as int, queue@.len() as int)).contains(c) by {
                    if rest_old.contains(c) && c != node@ {
                        let m = choose|m: int| 0 <= m < rest_old.len() && rest_old[m] == c;
                        assert(m > 0);
                        assert(names(queue@.subrange(head as int, queue@.len() as int))[m - 1] == c);
                    }
                }
            }
        } else {
            proof {
                assert(is_node(e, node@));
                assert(descends(e, root@, node@));
                let next_out = names(out@).push(node@);
                assert(next_out.no_duplicates());
                assert forall|i: int| 0 <= i < next_out.len() implies is_node(e, #[trigger] next_out[i]) by {
                    if i < out@.len() {
                        assert(next_out[i] == out@[i]@);
                    }
                }
                lemma_distinct_nodes_bounded(e, next_out);
                assert(has_parent_in(e, root@, names(out@), node@));
                lemma_parents_first_push(e, root@, names(out@), node@);
            }
            out.push(node.clone());
            let kids = children(edges, node.as_str());
            let ghost before_kids = queue@;
            let mut k: usize = 0;
            while k < kids.len()
                invariant
                    e == edges_view(edges@),
                    head <= before_kids.len(),
                    k <= kids@.len(),
                    queue@ == before_kids + kids@.take(k as int),
                decreases kids@.len() - k,
            {
                queue.push(kids[k].clone());
                assert(queue@ =~= before_kids + kids@.take(k + 1));
                k = k + 1;
            }
            proof {
                assert(kids@.take(kids@.len() as int) =~= kids@);
                assert(names(queue@).take(head as int) =~= names(old_queue).take(head as int));
                assert(names(out@).drop_last() =~= names(old_out));
                assert(names(out@).last() == node@);
                assert(names(out@) == first_occurrences(names(queue@).take(head as int)));
                assert(names(queue@) =~= names(old_queue) + names(kids@));
                assert(names(queue@) =~= children_of(e, root@) + children_of_each(e, names(out@)));
                let rest_new = names(queue@.subrange(head as int, queue@.len() as int));
                let rest_mid = names(before_kids.subrange(head as int, before_kids.len() as int));
                assert(rest_new =~= rest_mid + names(kids@));
                assert(names(out@) =~= names(old_out).push(node@));
                assert forall|i: int| 0 <= i < out@.len() implies descends(e, root@, #[trigger] out@[i]@) by {
                    if i < old_out.len() {
                        assert(out@[i] == old_out[i]);
                    }
                }
                assert forall|i: int| 0 <= i < out@.len() implies is_node(e, #[trigger] out@[i]@) by {
                    if i < old_out.len() {
                        assert(out@[i] == old_out[i]);
                    }
                }
                assert forall|i: int| head <= i < queue@.len() implies descends(e, root@, #[trigger] queue@[i]@) && is_node(e, queue@[i]@) by {
                    if i < before_kids.len() {
                        assert(queue@[i] == before_kids[i]);
                    } else {
                        assert(queue@[i] == kids@[i - before_kids.len()]);
                        assert(is_child(e, node@, kids@[i - before_kids.len()]@));
                        lemma_descends_extend(e, root@, node@, queue@[i]@);
                    }
                }
                assert(names(old_out).len() <= names(out@).len());
                assert(names(out@).take(names(old_out).len() as int) =~= names(old_out));
                assert forall|i: int| head <= i < queue@.len() implies has_parent_in(e, root@, names(out@), #[trigger] queue@[i]@) by {
                    if i < before_kids.len() {
                        assert(queue@[i] == before_kids[i]);
                        assert(has_parent_in(e, root@, names(old_out), before_kids[i]@));
                        lemma_parent_in_longer(e, root@, names(old_out), names(out@), queue@[i]@);
                    } else {
                        assert(queue@[i] == kids@[i - before_kids.len()]);
                        assert(is_child(e, node@, kids@[i - before_kids.len()]@));
                        assert(names(out@)[old_out.len() as int] == node@);
                        assert(is_child(e, names(out@)[old_out.len() as int], queue@[i]@));
                    }
                }
                assert forall|c: Seq<char>| names(kids@).contains(c) implies rest_new.contains(c) by {
                    let m = choose|m: int| 0 <= m < names(kids@).len() && names(kids@)[m] == c;
                    assert(rest_new[rest_mid.len() + m] == c);
                }
                assert forall|c: Seq<char>| rest_mid.contains(c) implies rest_new.contains(c) by {
                    let m = choose|m: int| 0 <= m < rest_mid.len() && rest_mid[m] == c;
                    assert(rest_new[m] == c);
                }
                assert forall|c: Seq<char>| rest_old.contains(c) && c != node@ implies rest_mid.contains(c) by {
                    let m = choose|m: int| 0 <= m < rest_old.len() && rest_old[m] == c;
                    assert(m > 0);
                    assert(rest_mid[m - 1] == c);
                }
                assert(names(out@).contains(node@)) by {
                    assert(names(out@)[out@.len() - 1] == node@);
                }
                assert forall|x: Seq<char>| names(old_out).contains(x) implies names(out@).contains(x) by {
                    let m = choose|m: int| 0 <= m < names(old_out).len() && names(old_out)[m] == x;
                    assert(names(out@)[m] == x);
                }
                assert forall|c: Seq<char>|
                    is_child(e, root@, c) implies names(out@).contains(c) || rest_new.contains(c) by {
                    if names(old_out).contains(c) {
                    } else if c == node@ {
                    } else {
                        assert(rest_old.contains(c));
                    }
                }
                assert forall|x: Seq<char>, c: Seq<char>|
                    names(out@).contains(x) && is_child(e, x, c) implies names(out@).contains(c)
                    || rest_new.contains(c) by {
                    if x == node@ {
                        assert(names(kids@).contains(c));
                    } else {
                        assert(names(old_out).contains(x)) by {
                            let m = choose|m: int| 0 <= m < names(out@).len() && names(out@)[m] == x;
                            assert(m < old_out.len());
                            assert(names(old_out)[m] == x);
                        }
                        if names(old_out).contains(c) {
                        } else if c == node@ {
                        } else {
                            assert(rest_old.contains(c));
                        }
                    }
                }
                assert(kids@.len() <= n);
                assert((n - out@.len()) * (n + 1) + (queue@.len() - head) < measure) by (nonlinear_arith)
                    requires
                        out@.len() == old_out.len() + 1,
                        queue@.len() <= old_queue.len() + n,
                        head == old_head + 1,
                        measure == (n - old_out.len()) * (n + 1) + (old_queue.len() - old_head),
                        out@.len() <= n,
                {}
            }
        }
    }
    proof {
        assert(names(queue@).take(head as int) =~= names(queue@));
        assert(queue@.subrange(head as int, queue@.len() as int) =~= Seq::<String>::empty());
        assert(names(Seq::<String>::empty()) =~= Seq::<Seq<char>>::empty());
        assert forall|x: Seq<char>| names(out@).contains(x) <==> descends(e, root@, x) by {
            if names(out@).contains(x) {
                let m = choose|m: int| 0 <= m < names(out@).len() && names(out@)[m] == x;
                assert(descends(e, root@, out@[m]@));
            }
            if descends(e, root@, x) {
                lemma_closed_contains_descendants(e, root@, names(out@), x);
            }
        }
    }
    out
}

/// The stale set is closed under children: whatever depends on a node below
/// `root` is itself below `root`, so it is marked stale too.
pub proof fn law_stale_set_closed(
    edges: Seq<(Seq<char>, Option<Seq<char>>)>,
    root: Seq<char>,
    x: Seq<char>,
    c: Seq<char>,
)
    requires
        descends(edges, root, x),
        is_child(edges, x, c),
    ensures
        descends(edges, root, c),
{
    lemma_descends_extend(edges, root, x, c);
}

/// Every child of `root` is stale when `root` changes.
pub proof fn law_children_are_stale(
    edges: Seq<(Seq<char>, Option<Seq<char>>)>,
    root: Seq<char>,
    c: Seq<char>,
)
    requires
        is_child(edges, root, c),
    ensures
        descends(edges, root, c),
{
    lemma_child_of_root(edges, root, c);
}

/// The value of the last header named `n`.
pub open spec fn last_value(h: Seq<(Seq<char>, Seq<u8>)>, n: Seq<char>) -> Option<Seq<u8>>
    decreases h.len(),
{
    if h.len() == 0 {
        None
    } else if h.last().0 == n {
        Some(h.last().1)
    } else {
        last_value(h.drop_last(), n)
    }
}

/// A replay forwards every header of the caller but the connection-level ones
/// (`host`, `content-length`, `connection`, `keep-alive`, `transfer-encoding`,
/// `upgrade`, `te`, `trailer`, `proxy-connection`), each with its last value;
/// those it never forwards.
pub proof fn law_forwarded_headers(h: Seq<(Seq<char>, Seq<u8>)>, n: Seq<char>)
    ensures
        header_value(forwarded(h), n) == (if n == "host"@ || n == "content-length"@ || n
            == "connection"@ || n == "keep-alive"@ || n == "transfer-encoding"@ || n == "upgrade"@
            || n == "te"@ || n == "trailer"@ || n == "proxy-connection"@ {
            None
        } else {
            last_value(h, n)
        }),
    decreases h.len(),
{
    if h.len() > 0 {
        let d = h.drop_last();
        law_forwarded_headers(d, n);
        if !forbidden_header(h.last().0) {
            law_header_set_then_read(forwarded(d), h.last().0, h.last().1, n);
        }
    }
}


/// A replay never replaces a key the caller sent; it adds the proxy's own key,
/// when it has a valid one, under the header its provider reads (`x-api-key` for
/// Anthropic, `authorization: Bearer` for OpenAI); for other providers the
/// headers stay as they are.
pub proof fn law_replay_credentials(
    h: Seq<(Seq<char>, Seq<u8>)>,
    provider: Seq<char>,
    anthropic_key: Option<Seq<char>>,
    openai_key: Option<Seq<char>>,
)
    ensures
        ({
            let r = with_credentials(h, provider, anthropic_key, openai_key);
            &&& header_value(h, "x-api-key"@) is Some ==> header_value(r, "x-api-key"@)
                == header_value(h, "x-api-key"@)
            &&& header_value(h, "authorization"@) is Some ==> header_value(r, "authorization"@)
                == header_value(h, "authorization"@)
            &&& provider != "anthropic"@ && provider != "openai"@ ==> r == h
            &&& (provider == "anthropic"@ && header_value(h, "x-api-key"@) is None
                && anthropic_key is Some && valid_header_value(anthropic_key.unwrap())) ==> header_value(
                r,
                "x-api-key"@,
            ) == Some(encode_utf8(anthropic_key.unwrap()))
            &&& (provider == "openai"@ && header_value(h, "authorization"@) is None
                && openai_key is Some && valid_header_value("Bearer "@ + openai_key.unwrap()))
                ==> header_value(r, "authorization"@) == Some(
                encode_utf8("Bearer "@ + openai_key.unwrap()),
            )
        }),
{
    reveal_strlit("x-api-key");
    reveal_strlit("authorization");
    reveal_strlit("anthropic");
    reveal_strlit("openai");
    assert("x-api-key"@.len() != "authorization"@.len());
    assert("anthropic"@.len() != "openai"@.len());
    match anthropic_key {
        Some(k) => {
            law_header_set_then_read(h, "x-api-key"@, encode_utf8(k), "x-api-key"@);
            law_header_set_then_read(h, "x-api-key"@, encode_utf8(k), "authorization"@);
        },
        None => {},
    }
    match openai_key {
        Some(k) => {
            law_header_set_then_read(h, "authorization"@, encode_utf8("Bearer "@ + k), "authorization"@);
            law_header_set_then_read(h, "authorization"@, encode_utf8("Bearer "@ + k), "x-api-key"@);
        },
        None => {},
    }
}

/// The request id recorded for a replay: the provider's response header when it
/// sent one, else the id in the response body; `"-"` when the chosen one is empty
/// or there is none.
pub proof fn law_replay_request_id(header_id: Option<Seq<char>>, body_id: Option<Seq<char>>)
    ensures
        header_id is Some && header_id.unwrap().len() > 0 ==> replay_request_id_of(header_id, body_id)
            == header_id.unwrap(),
        header_id is Some && header_id.unwrap().len() == 0 ==> replay_request_id_of(header_id, body_id)
            == "-"@,
        header_id is None && body_id is Some && body_id.unwrap().len() > 0 ==> replay_request_id_of(
            header_id,
            body_id,
        ) == body_id.unwrap(),
        header_id is None && !(body_id is Some && body_id.unwrap().len() > 0) ==> replay_request_id_of(
            header_id,
            body_id,
        ) == "-"@,
{
}

} // verus!
