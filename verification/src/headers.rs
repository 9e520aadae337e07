//! Request headers as name/value pairs, and the values the proxy derives from them.
use vstd::prelude::*;

use crate::digest::{sha256, sha256_digest};
use crate::text::{
    append_str, hex_lower, hex_string, lemma_split_len, split, split_chars, starts_with, str_eq,
    string_of, trim, trim_chars, has_prefix,
};

verus! {

/// Request or response headers, in order: lower-case names with their raw values.
pub struct Headers {
    pub entries: Vec<(String, Vec<u8>)>,
}

impl View for Headers {
    type V = Seq<(Seq<char>, Seq<u8>)>;

    open spec fn view(&self) -> Seq<(Seq<char>, Seq<u8>)> {
        self.entries@.map_values(|e: (String, Vec<u8>)| (e.0@, e.1@))
    }
}

/// The value of the first header named `name`.
pub open spec fn header_value(h: Seq<(Seq<char>, Seq<u8>)>, name: Seq<char>) -> Option<Seq<u8>>
    decreases h.len(),
{
    if h.len() == 0 {
        None
    } else if h[0].0 == name {
        Some(h[0].1)
    } else {
        header_value(h.drop_first(), name)
    }
}

/// A byte that `HeaderValue::to_str` accepts: visible ASCII or a tab.
pub open spec fn is_visible_ascii(b: u8) -> bool {
    (32 <= b && b < 127) || b == 9
}

pub open spec fn all_visible_ascii(v: Seq<u8>) -> bool {
    forall|i: int| 0 <= i < v.len() ==> is_visible_ascii(#[trigger] v[i])
}

/// The text of a header value, when it is all visible ASCII.
pub open spec fn visible_text(v: Seq<u8>) -> Option<Seq<char>> {
    if all_visible_ascii(v) {
        Some(v.map_values(|b: u8| b as char))
    } else {
        None
    }
}

/// The text of the first header named `name`, when there is one and it is readable.
pub open spec fn header_text(h: Seq<(Seq<char>, Seq<u8>)>, name: Seq<char>) -> Option<Seq<char>> {
    match header_value(h, name) {
        Some(v) => visible_text(v),
        None => None,
    }
}

/// The text after the prefix `"Bearer "`, when the value has it.
pub open spec fn strip_bearer(v: Seq<char>) -> Option<Seq<char>> {
    if has_prefix(v, "Bearer "@) {
        Some(v.skip(7))
    } else {
        None
    }
}

/// The client a request comes from: the first entry of `x-forwarded-for`, else
/// `x-real-ip`, each trimmed, else `"unknown"`.
pub open spec fn client_of(h: Seq<(Seq<char>, Seq<u8>)>) -> Seq<char> {
    match header_text(h, "x-forwarded-for"@) {
        Some(raw) => trim(split(raw, ',')[0]),
        None => match header_text(h, "x-real-ip"@) {
            Some(raw) => trim(raw),
            None => "unknown"@,
        },
    }
}

/// The bucket key of the rate limiter: a short authorization value is hashed and
/// names the bucket, else the client does.
pub open spec fn rate_key_of(h: Seq<(Seq<char>, Seq<u8>)>, method: Seq<char>, path: Seq<char>) -> Seq<char> {
    match header_text(h, "authorization"@) {
        Some(token) if token.len() <= 16 => "token:"@ + hex_lower(
            sha256_digest(header_value(h, "authorization"@).unwrap()),
        ) + "|"@ + method + "|"@ + path,
        _ => client_of(h) + "|"@ + method + "|"@ + path,
    }
}

/// Who an idempotency key belongs to: the hashed bearer token, else the client.
pub open spec fn subject_of(h: Seq<(Seq<char>, Seq<u8>)>) -> Seq<char> {
    match header_text(h, "authorization"@) {
        Some(v) if strip_bearer(v) is Some => hex_lower(
            sha256_digest(strip_bearer(v).unwrap().map_values(|c: char| c as u8)),
        ),
        _ => client_of(h),
    }
}

/// The bearer token that authorization checks read: trimmed and not empty.
pub open spec fn authorization_token_of(h: Seq<(Seq<char>, Seq<u8>)>) -> Option<Seq<char>> {
    match header_text(h, "authorization"@) {
        Some(v) => match strip_bearer(v) {
            Some(t) => if trim(t).len() > 0 {
                Some(trim(t))
            } else {
                None
            },
            None => None,
        },
        None => None,
    }
}

/// The idempotency key of a request: the trimmed header, when not empty.
pub open spec fn idempotency_key_of(h: Seq<(Seq<char>, Seq<u8>)>) -> Option<Seq<char>> {
    match header_text(h, "idempotency-key"@) {
        Some(v) => if trim(v).len() > 0 {
            Some(trim(v))
        } else {
            None
        },
        None => None,
    }
}

/// The upstream request id: the first readable one of the known provider headers.
pub open spec fn response_request_id_of(h: Seq<(Seq<char>, Seq<u8>)>) -> Option<Seq<char>> {
    if header_text(h, "x-request-id"@) is Some {
        header_text(h, "x-request-id"@)
    } else if header_text(h, "request-id"@) is Some {
        header_text(h, "request-id"@)
    } else if header_text(h, "openai-request-id"@) is Some {
        header_text(h, "openai-request-id"@)
    } else {
        header_text(h, "anthropic-request-id"@)
    }
}

/// The headers without any named `name`.
pub open spec fn without_name(h: Seq<(Seq<char>, Seq<u8>)>, name: Seq<char>) -> Seq<(Seq<char>, Seq<u8>)>
    decreases h.len(),
{
    if h.len() == 0 {
        h
    } else {
        let r = without_name(h.drop_last(), name);
        if h.last().0 == name {
            r
        } else {
            r.push(h.last())
        }
    }
}

/// The headers after setting `name` to `value`, replacing what it had, as
/// `HeaderMap::insert` does.
pub open spec fn with_header(h: Seq<(Seq<char>, Seq<u8>)>, name: Seq<char>, value: Seq<u8>) -> Seq<(Seq<char>, Seq<u8>)> {
    without_name(h, name).push((name, value))
}

proof fn lemma_header_value_skip(h: Seq<(Seq<char>, Seq<u8>)>, name: Seq<char>, i: int)
    requires
        0 <= i < h.len(),
        h[i].0 != name,
    ensures
        header_value(h.skip(i), name) == header_value(h.skip(i + 1), name),
{
    assert(h.skip(i).drop_first() =~= h.skip(i + 1));
}

proof fn lemma_header_value_push(h: Seq<(Seq<char>, Seq<u8>)>, x: (Seq<char>, Seq<u8>), m: Seq<char>)
    ensures
        header_value(h.push(x), m) == (if header_value(h, m) is Some {
            header_value(h, m)
        } else if x.0 == m {
            Some(x.1)
        } else {
            None
        }),
    decreases h.len(),
{
    if h.len() > 0 {
        assert(h.push(x)[0] == h[0]);
        assert(h.push(x).drop_first() =~= h.drop_first().push(x));
        lemma_header_value_push(h.drop_first(), x, m);
    } else {
        assert(h.push(x)[0] == x);
        assert(h.push(x).drop_first() =~= Seq::<(Seq<char>, Seq<u8>)>::empty());
        assert(header_value(Seq::<(Seq<char>, Seq<u8>)>::empty(), m) is None);
    }
}

proof fn lemma_without_name_value(h: Seq<(Seq<char>, Seq<u8>)>, n: Seq<char>, m: Seq<char>)
    ensures
        header_value(without_name(h, n), m) == (if m == n {
            None
        } else {
            header_value(h, m)
        }),
    decreases h.len(),
{
    if h.len() > 0 {
        let d = h.drop_last();
        lemma_without_name_value(d, n, m);
        assert(d.push(h.last()) =~= h);
        lemma_header_value_push(d, h.last(), m);
        if h.last().0 != n {
            lemma_header_value_push(without_name(d, n), h.last(), m);
        }
    }
}

/// Setting a header replaces it: reading it back gives the value just set, and
/// every other header reads as it did before.
pub proof fn law_header_set_then_read(
    h: Seq<(Seq<char>, Seq<u8>)>,
    name: Seq<char>,
    value: Seq<u8>,
    other: Seq<char>,
)
    ensures
        header_value(with_header(h, name, value), name) == Some(value),
        other != name ==> header_value(with_header(h, name, value), other) == header_value(h, other),
{
    lemma_without_name_value(h, name, name);
    lemma_header_value_push(without_name(h, name), (name, value), name);
    lemma_without_name_value(h, name, other);
    lemma_header_value_push(without_name(h, name), (name, value), other);
}

impl Headers {
    /// No headers.
    pub fn new() -> (r: Headers)
        ensures
            r@ == Seq::<(Seq<char>, Seq<u8>)>::empty(),
    {
        let r = Headers { entries: Vec::new() };
        assert(r@ =~= Seq::<(Seq<char>, Seq<u8>)>::empty());
        r
    }

    /// A copy of these headers.
    pub fn copy(&self) -> (r: Headers)
        ensures
            r@ == self@,
    {
        let mut entries: Vec<(String, Vec<u8>)> = Vec::new();
        let mut i: usize = 0;
        while i < self.entries.len()
            invariant
                i <= self.entries@.len(),
                entries@.len() == i,
                entries@.map_values(|e: (String, Vec<u8>)| (e.0@, e.1@)) == self@.take(i as int),
            decreases self.entries@.len() - i,
        {
            let e = &self.entries[i];
            let name = e.0.clone();
            let value = copy_bytes(&e.1);
            entries.push((name, value));
            assert(entries@.map_values(|e: (String, Vec<u8>)| (e.0@, e.1@)) =~= self@.take(i + 1));
            i = i + 1;
        }
        let r = Headers { entries };
        assert(self@.take(self@.len() as int) =~= self@);
        r
    }

    /// Sets `name` to `value`, replacing every value it had.
    pub fn insert(&mut self, name: String, value: Vec<u8>)
        ensures
            final(self)@ == with_header(old(self)@, name@, value@),
    {
        let ghost h = self@;
        let mut kept: Vec<(String, Vec<u8>)> = Vec::new();
        let mut old_entries: Vec<(String, Vec<u8>)> = Vec::new();
        std::mem::swap(&mut old_entries, &mut self.entries);
        assert(old_entries@.map_values(|e: (String, Vec<u8>)| (e.0@, e.1@)) == h);
        let mut i: usize = 0;
        while i < old_entries.len()
            invariant
                i <= old_entries@.len(),
                old_entries@.map_values(|e: (String, Vec<u8>)| (e.0@, e.1@)) == h,
                kept@.map_values(|e: (String, Vec<u8>)| (e.0@, e.1@)) == without_name(
                    h.take(i as int),
                    name@,
                ),
            decreases old_entries@.len() - i,
        {
            let e = &old_entries[i];
            assert(h.take(i + 1).drop_last() =~= h.take(i as int));
            assert(h[i as int] == (e.0@, e.1@));
            if !str_eq(e.0.as_str(), name.as_str()) {
                kept.push((e.0.clone(), copy_bytes(&e.1)));
                assert(kept@.map_values(|e: (String, Vec<u8>)| (e.0@, e.1@)) =~= without_name(
                    h.take(i as int),
                    name@,
                ).push(h[i as int]));
            }
            i = i + 1;
        }
        assert(h.take(old_entries@.len() as int) =~= h);
        let ghost nv = (name@, value@);
        kept.push((name, value));
        assert(kept@.map_values(|e: (String, Vec<u8>)| (e.0@, e.1@)) =~= with_header(h, nv.0, nv.1));
        self.entries = kept;
    }

    /// The number of header entries.
    pub fn len(&self) -> (r: usize)
        ensures
            r == self@.len(),
    {
        self.entries.len()
    }

    /// The name and value of the entry at `i`.
    pub fn entry(&self, i: usize) -> (r: (&String, &Vec<u8>))
        requires
            i < self@.len(),
        ensures
            (r.0@, r.1@) == self@[i as int],
    {
        let e = &self.entries[i];
        (&e.0, &e.1)
    }

    /// Adds a header at the end.
    pub fn append(&mut self, name: String, value: Vec<u8>)
        ensures
            final(self)@ == old(self)@.push((name@, value@)),
    {
        self.entries.push((name, value));
        assert(self@ =~= old(self)@.push((name@, value@)));
    }

    /// The value of the first header named `name`.
    pub fn get(&self, name: &str) -> (r: Option<&Vec<u8>>)
        ensures
            match r {
                Some(v) => header_value(self@, name@) == Some(v@),
                None => header_value(self@, name@) is None,
            },
    {
        let mut i: usize = 0;
        assert(self@.skip(0) =~= self@);
        while i < self.entries.len()
            invariant
                i <= self@.len(),
                self@.len() == self.entries@.len(),
                header_value(self@, name@) == header_value(self@.skip(i as int), name@),
            decreases self@.len() - i,
        {
            let e = &self.entries[i];
            assert(self@[i as int] == (e.0@, e.1@));
            if str_eq(e.0.as_str(), name) {
                assert(self@.skip(i as int)[0] == self@[i as int]);
                return Some(&e.1);
            }
            proof {
                lemma_header_value_skip(self@, name@, i as int);
            }
            i = i + 1;
        }
        assert(self@.skip(i as int) =~= Seq::<(Seq<char>, Seq<u8>)>::empty());
        None
    }

    /// Whether a header named `name` is present.
    pub fn contains_key(&self, name: &str) -> (r: bool)
        ensures
            r == (header_value(self@, name@) is Some),
    {
        self.get(name).is_some()
    }

    /// The text of the first header named `name`, when it is all visible ASCII.
    pub fn get_str(&self, name: &str) -> (r: Option<Vec<char>>)
        ensures
            match r {
                Some(t) => header_text(self@, name@) == Some(t@),
                None => header_text(self@, name@) is None,
            },
    {
        match self.get(name) {
            Some(v) => visible_chars(v.as_slice()),
            None => None,
        }
    }
}

/// A copy of a byte string.
pub fn copy_bytes(v: &Vec<u8>) -> (r: Vec<u8>)
    ensures
        r@ == v@,
{
    let mut r: Vec<u8> = Vec::new();
    let mut i: usize = 0;
    while i < v.len()
        invariant
            i <= v@.len(),
            r@ == v@.take(i as int),
        decreases v@.len() - i,
    {
        r.push(v[i]);
        assert(r@ =~= v@.take(i + 1));
        i = i + 1;
    }
    assert(v@.take(v@.len() as int) =~= v@);
    r
}

/// The text of a header value, when it is all visible ASCII.
pub fn visible_chars(v: &[u8]) -> (r: Option<Vec<char>>)
    ensures
        match r {
            Some(t) => visible_text(v@) == Some(t@),
            None => visible_text(v@) is None,
        },
{
    let mut out: Vec<char> = Vec::new();
    let mut i: usize = 0;
    while i < v.len()
        invariant
            i <= v@.len(),
            all_visible_ascii(v@.take(i as int)),
            out@ == v@.take(i as int).map_values(|b: u8| b as char),
        decreases v@.len() - i,
    {
        let b = v[i];
        if !((32 <= b && b < 127) || b == 9) {
            assert(!is_visible_ascii(v@[i as int]));
            return None;
        }
        out.push(b as char);
        proof {
            assert(v@.take(i + 1) =~= v@.take(i as int).push(b));
            assert(out@ =~= v@.take(i + 1).map_values(|b: u8| b as char));
        }
        i = i + 1;
    }
    assert(v@.take(v@.len() as int) =~= v@);
    Some(out)
}

/// The bytes of ASCII characters.
fn ascii_bytes(t: &[char]) -> (r: Vec<u8>)
    requires
        forall|i: int| 0 <= i < t@.len() ==> (#[trigger] t@[i] as int) < 128,
    ensures
        r@ == t@.map_values(|c: char| c as u8),
{
    let mut r: Vec<u8> = Vec::new();
    let mut i: usize = 0;
    while i < t.len()
        invariant
            i <= t@.len(),
            forall|k: int| 0 <= k < t@.len() ==> (#[trigger] t@[k] as int) < 128,
            r@ == t@.take(i as int).map_values(|c: char| c as u8),
        decreases t@.len() - i,
    {
        let c = t[i];
        assert((c as int) < 128);
        r.push(c as u8);
        assert(r@ =~= t@.take(i + 1).map_values(|c: char| c as u8));
        i = i + 1;
    }
    assert(t@.take(t@.len() as int) =~= t@);
    r
}

/// The client a request comes from, as the rate limiter and idempotency keys see it.
pub fn request_client(headers: &Headers) -> (r: String)
    ensures
        r@ == client_of(headers@),
{
    if let Some(raw) = headers.get_str("x-forwarded-for") {
        let parts = split_chars(raw.as_slice(), ',');
        proof {
            lemma_split_len(raw@, ',');
        }
        let first = trim_chars(parts[0].as_slice());
        return string_of(first.as_slice());
    }
    if let Some(raw) = headers.get_str("x-real-ip") {
        let t = trim_chars(raw.as_slice());
        return string_of(t.as_slice());
    }
    String::from_str("unknown")
}

/// The rate-limit bucket key of a request.
pub fn rate_limit_key(headers: &Headers, method: &str, path: &str) -> (r: String)
    ensures
        r@ == rate_key_of(headers@, method@, path@),
{
    let token = headers.get_str("authorization");
    let short = match &token {
        Some(t) => t.len() <= 16,
        None => false,
    };
    let mut key = String::new();
    if short {
        let raw = headers.get("authorization").unwrap();
        let digest = sha256(raw.as_slice());
        append_str(&mut key, "token:");
        let hex = hex_string(digest.as_slice());
        append_str(&mut key, hex.as_str());
    } else {
        let client = request_client(headers);
        append_str(&mut key, client.as_str());
    }
    append_str(&mut key, "|");
    append_str(&mut key, method);
    append_str(&mut key, "|");
    append_str(&mut key, path);
    key
}

/// Who an idempotency key belongs to.
pub fn idempotency_subject(headers: &Headers) -> (r: String)
    ensures
        r@ == subject_of(headers@),
{
    if let Some(v) = headers.get_str("authorization") {
        if starts_with(v.as_slice(), "Bearer ") {
            let mut rest: Vec<char> = Vec::new();
            let mut i: usize = 7;
            proof {
                reveal_strlit("Bearer ");
            }
            while i < v.len()
                invariant
                    7 <= i <= v@.len(),
                    rest@ == v@.subrange(7, i as int),
                decreases v@.len() - i,
            {
                rest.push(v[i]);
                assert(rest@ =~= v@.subrange(7, i + 1));
                i = i + 1;
            }
            proof {
                assert(rest@ =~= v@.skip(7));
                let raw = header_value(headers@, "authorization"@).unwrap();
                assert forall|k: int| 0 <= k < rest@.len() implies (#[trigger] rest@[k] as int)
                    < 128 by {
                    assert(rest@[k] == v@[k + 7]);
                    assert(v@[k + 7] == raw[k + 7] as char);
                    assert(is_visible_ascii(raw[k + 7]));
                }
            }
            let bytes = ascii_bytes(rest.as_slice());
            let digest = sha256(bytes.as_slice());
            return hex_string(digest.as_slice());
        }
    }
    request_client(headers)
}

/// The bearer token for an authorization check: after `"Bearer "`, trimmed, not empty.
pub fn authorization_token(headers: &Headers) -> (r: Option<String>)
    ensures
        match r {
            Some(t) => authorization_token_of(headers@) == Some(t@),
            None => authorization_token_of(headers@) is None,
        },
{
    if let Some(v) = headers.get_str("authorization") {
        if starts_with(v.as_slice(), "Bearer ") {
            proof {
                reveal_strlit("Bearer ");
            }
            let t = trim_chars(tail_chars(v.as_slice(), 7).as_slice());
            if t.len() > 0 {
                return Some(string_of(t.as_slice()));
            }
            return None;
        }
    }
    None
}

/// The characters of `v` from `start` on.
pub fn tail_chars(v: &[char], start: usize) -> (r: Vec<char>)
    requires
        start <= v@.len(),
    ensures
        r@ == v@.skip(start as int),
{
    let mut r: Vec<char> = Vec::new();
    let mut i: usize = start;
    while i < v.len()
        invariant
            start <= i <= v@.len(),
            r@ == v@.subrange(start as int, i as int),
        decreases v@.len() - i,
    {
        r.push(v[i]);
        assert(r@ =~= v@.subrange(start as int, i + 1));
        i = i + 1;
    }
    assert(r@ =~= v@.skip(start as int));
    r
}

/// The idempotency key of a request, when it carries a non-empty one.
pub fn idempotency_key(headers: &Headers) -> (r: Option<String>)
    ensures
        match r {
            Some(t) => idempotency_key_of(headers@) == Some(t@),
            None => idempotency_key_of(headers@) is None,
        },
{
    if let Some(v) = headers.get_str("idempotency-key") {
        let t = trim_chars(v.as_slice());
        if t.len() > 0 {
            return Some(string_of(t.as_slice()));
        }
    }
    None
}

/// The upstream request id, from the first known provider header that is readable.
pub fn response_request_id(headers: &Headers) -> (r: Option<String>)
    ensures
        match r {
            Some(t) => response_request_id_of(headers@) == Some(t@),
            None => response_request_id_of(headers@) is None,
        },
{
    if let Some(v) = headers.get_str("x-request-id") {
        return Some(string_of(v.as_slice()));
    }
    if let Some(v) = headers.get_str("request-id") {
        return Some(string_of(v.as_slice()));
    }
    if let Some(v) = headers.get_str("openai-request-id") {
        return Some(string_of(v.as_slice()));
    }
    if let Some(v) = headers.get_str("anthropic-request-id") {
        return Some(string_of(v.as_slice()));
    }
    None
}


/// A request that names neither `x-forwarded-for` nor `x-real-ip` (readably)
/// comes from the client `"unknown"`.
pub proof fn law_client_unknown_without_address(h: Seq<(Seq<char>, Seq<u8>)>)
    requires
        header_text(h, "x-forwarded-for"@) is None,
        header_text(h, "x-real-ip"@) is None,
    ensures
        client_of(h) == "unknown"@,
{
}

/// `x-forwarded-for` wins: while it is present, whatever `x-real-ip` says does
/// not change the client.
pub proof fn law_forwarded_for_wins(h: Seq<(Seq<char>, Seq<u8>)>, v: Seq<u8>)
    requires
        header_text(h, "x-forwarded-for"@) is Some,
    ensures
        client_of(with_header(h, "x-real-ip"@, v)) == client_of(h),
{
    reveal_strlit("x-forwarded-for");
    reveal_strlit("x-real-ip");
    assert("x-forwarded-for"@.len() != "x-real-ip"@.len());
    law_header_set_then_read(h, "x-real-ip"@, v, "x-forwarded-for"@);
}

/// A bearer token that authorization reads is never empty and comes from an
/// `authorization` header that starts with `"Bearer "`; without that header there
/// is none.
pub proof fn law_authorization_token_source(h: Seq<(Seq<char>, Seq<u8>)>)
    ensures
        header_text(h, "authorization"@) is None ==> authorization_token_of(h) is None,
        authorization_token_of(h) is Some ==> authorization_token_of(h).unwrap().len() > 0
            && header_text(h, "authorization"@) is Some && has_prefix(
            header_text(h, "authorization"@).unwrap(),
            "Bearer "@,
        ),
{
}

/// An idempotency key is never empty, and there is none without the
/// `idempotency-key` header.
pub proof fn law_idempotency_key_source(h: Seq<(Seq<char>, Seq<u8>)>)
    ensures
        header_text(h, "idempotency-key"@) is None ==> idempotency_key_of(h) is None,
        idempotency_key_of(h) is Some ==> idempotency_key_of(h).unwrap().len() > 0,
{
}

/// Requests that carry the same `authorization: Bearer` value belong to the same
/// subject, whichever client they come from.
pub proof fn law_subject_follows_token(h1: Seq<(Seq<char>, Seq<u8>)>, h2: Seq<(Seq<char>, Seq<u8>)>)
    requires
        header_text(h1, "authorization"@) == header_text(h2, "authorization"@),
        header_text(h1, "authorization"@) is Some,
        has_prefix(header_text(h1, "authorization"@).unwrap(), "Bearer "@),
    ensures
        subject_of(h1) == subject_of(h2),
{
}

/// The upstream request id is `x-request-id` whenever that header is readable.
pub proof fn law_request_id_header_first(h: Seq<(Seq<char>, Seq<u8>)>)
    requires
        header_text(h, "x-request-id"@) is Some,
    ensures
        response_request_id_of(h) == header_text(h, "x-request-id"@),
{
}

} // verus!
