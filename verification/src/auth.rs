//! Authentication decisions: bearer tokens, one-time OAuth state, configuration
//! checks and the access-control seed.
use vstd::prelude::*;
use vstd::utf8::encode_utf8;

use crate::headers::{authorization_token, header_text, strip_bearer, Headers};
use crate::store::{Deadline, Keyed};
use crate::text::{has_prefix, starts_with, trim, trim_chars, string_of};
use crate::headers::tail_chars;
use crate::routing::policy_for;

verus! {

/// The kind of an API error, which decides its HTTP status.
#[derive(Clone, Copy, PartialEq, Eq, Structural)]
pub enum ApiErrorKind {
    BadRequest,
    Unauthorized,
    Unavailable,
    Internal,
}

/// An error answered to an API caller.
pub struct ApiError {
    pub kind: ApiErrorKind,
    pub message: &'static str,
}

/// An API error as values.
pub struct ApiErrorView {
    pub kind: ApiErrorKind,
    pub message: Seq<char>,
}

impl View for ApiError {
    type V = ApiErrorView;

    open spec fn view(&self) -> ApiErrorView {
        ApiErrorView { kind: self.kind, message: self.message@ }
    }
}

pub open spec fn api_error(kind: ApiErrorKind, message: Seq<char>) -> ApiErrorView {
    ApiErrorView { kind, message }
}

// ---------------------------------------------------------------------------
// One-time OAuth state
// ---------------------------------------------------------------------------

/// How long an OAuth state is accepted: ten minutes, in nanoseconds.
pub open spec fn pkce_ttl_nanos() -> int {
    600_000_000_000int
}

/// The PKCE verifier kept for an OAuth state until the provider calls back.
pub struct PkceSession {
    pub verifier: String,
    pub expires_at: u64,
}

impl Deadline for PkceSession {
    open spec fn deadline(&self) -> u64 {
        self.expires_at
    }

    fn expires_at(&self) -> (r: u64) {
        self.expires_at
    }
}

/// The OAuth states awaiting their callback, each with its verifier and deadline.
pub open spec fn sessions_live(m: Map<Seq<char>, (Seq<char>, u64)>, now: u64) -> Map<Seq<char>, (Seq<char>, u64)> {
    Map::new(|k: Seq<char>| m.contains_key(k) && m[k].1 > now, |k: Seq<char>| m[k])
}

/// The store after keeping `verifier` for `state` at `now`.
pub open spec fn store_spec(m: Map<Seq<char>, (Seq<char>, u64)>, state: Seq<char>, verifier: Seq<char>, now: u64) -> Map<Seq<char>, (Seq<char>, u64)> {
    m.insert(state, (verifier, (now + pkce_ttl_nanos()) as u64))
}

/// Taking the verifier of `state`: expired states are dropped at `now`, the state
/// is used up, and a session that has run out by `later` is refused.
pub open spec fn take_spec(m: Map<Seq<char>, (Seq<char>, u64)>, state: Seq<char>, now: u64, later: u64) -> (
    Map<Seq<char>, (Seq<char>, u64)>,
    Result<(Seq<char>, u64), ApiErrorView>,
) {
    let p = sessions_live(m, now);
    (
        p.remove(state),
        if !p.contains_key(state) {
            Err(api_error(ApiErrorKind::BadRequest, "invalid or expired OAuth state"@))
        } else if p[state].1 <= later {
            Err(api_error(ApiErrorKind::BadRequest, "expired OAuth state"@))
        } else {
            Ok(p[state])
        },
    )
}

/// OAuth states awaiting their callback.
pub struct PkceStore {
    states: Keyed<PkceSession>,
}

impl PkceStore {
    pub closed spec fn wf(&self) -> bool {
        self.states.wf()
    }

    /// Each state with its verifier and deadline.
    pub closed spec fn sessions(&self) -> Map<Seq<char>, (Seq<char>, u64)> {
        self.states.map().map_values(|s: PkceSession| (s.verifier@, s.expires_at))
    }

    /// A store with no pending state.
    pub fn new() -> (r: PkceStore)
        ensures
            r.wf(),
            r.sessions() == Map::<Seq<char>, (Seq<char>, u64)>::empty(),
    {
        let r = PkceStore { states: Keyed::new() };
        assert(r.sessions() =~= Map::<Seq<char>, (Seq<char>, u64)>::empty());
        r
    }

    /// Keeps `verifier` for `state`, for ten minutes from `now`.
    pub fn store_pkce_session(&mut self, state: String, verifier: String, now: u64)
        requires
            old(self).wf(),
            now + pkce_ttl_nanos() <= u64::MAX,
        ensures
            final(self).wf(),
            final(self).sessions() == store_spec(old(self).sessions(), state@, verifier@, now),
    {
        let ghost k = state@;
        let ghost v = verifier@;
        self.states.insert(state, PkceSession { verifier, expires_at: now + 600_000_000_000 });
        assert(self.sessions() =~= store_spec(old(self).sessions(), k, v, now));
    }

    /// Takes the session of `state`, once: expired states are dropped at `now`, and
    /// the session must still be valid at `later`.
    pub fn take_pkce_session(&mut self, state: &str, now: u64, later: u64) -> (r: Result<
        PkceSession,
        ApiError,
    >)
        requires
            old(self).wf(),
        ensures
            final(self).wf(),
            final(self).sessions() == take_spec(old(self).sessions(), state@, now, later).0,
            match r {
                Ok(s) => take_spec(old(self).sessions(), state@, now, later).1 == Ok::<
                    (Seq<char>, u64),
                    ApiErrorView,
                >((s.verifier@, s.expires_at)),
                Err(e) => take_spec(old(self).sessions(), state@, now, later).1 == Err::<
                    (Seq<char>, u64),
                    ApiErrorView,
                >(e@),
            },
    {
        self.states.prune(now);
        let ghost p = self.sessions();
        assert(p =~= sessions_live(old(self).sessions(), now));
        let taken = self.states.remove(state);
        assert(self.sessions() =~= p.remove(state@));
        match taken {
            None => Err(
                ApiError { kind: ApiErrorKind::BadRequest, message: "invalid or expired OAuth state" },
            ),
            Some(session) => {
                if session.expires_at <= later {
                    Err(ApiError { kind: ApiErrorKind::BadRequest, message: "expired OAuth state" })
                } else {
                    Ok(session)
                }
            },
        }
    }
}

/// A stored OAuth state yields its verifier on the callback within ten minutes.
pub proof fn law_pkce_callback_gets_verifier(
    m: Map<Seq<char>, (Seq<char>, u64)>,
    state: Seq<char>,
    verifier: Seq<char>,
    stored_at: u64,
    now: u64,
    later: u64,
)
    requires
        stored_at + pkce_ttl_nanos() <= u64::MAX,
        now <= later,
        later < stored_at + pkce_ttl_nanos(),
    ensures
        take_spec(store_spec(m, state, verifier, stored_at), state, now, later).1 == Ok::<
            (Seq<char>, u64),
            ApiErrorView,
        >((verifier, (stored_at + pkce_ttl_nanos()) as u64)),
{
}

/// An OAuth state works once: taking it a second time is refused.
pub proof fn law_pkce_state_used_once(
    m: Map<Seq<char>, (Seq<char>, u64)>,
    state: Seq<char>,
    now: u64,
    later: u64,
    now2: u64,
    later2: u64,
)
    ensures
        take_spec(take_spec(m, state, now, later).0, state, now2, later2).1 == Err::<
            (Seq<char>, u64),
            ApiErrorView,
        >(api_error(ApiErrorKind::BadRequest, "invalid or expired OAuth state"@)),
{
}

// ---------------------------------------------------------------------------
// Bearer tokens and configuration
// ---------------------------------------------------------------------------

/// The token of an `Authorization: Bearer <token>` header, or why there is none.
pub open spec fn bearer_token_of(h: Seq<(Seq<char>, Seq<u8>)>) -> Result<Seq<char>, ApiErrorView> {
    match header_text(h, "authorization"@) {
        None => Err(api_error(ApiErrorKind::Unauthorized, "missing Authorization bearer token"@)),
        Some(v) => match strip_bearer(v) {
            Some(t) if trim(t).len() > 0 => Ok(t),
            _ => Err(api_error(ApiErrorKind::Unauthorized, "invalid Authorization bearer token"@)),
        },
    }
}

/// The bearer token of a request: the text after `"Bearer "`, which must not be blank.
pub fn bearer_token(headers: &Headers) -> (r: Result<String, ApiError>)
    ensures
        match r {
            Ok(t) => bearer_token_of(headers@) == Ok::<Seq<char>, ApiErrorView>(t@),
            Err(e) => bearer_token_of(headers@) == Err::<Seq<char>, ApiErrorView>(e@),
        },
{
    let v = match headers.get_str("authorization") {
        Some(v) => v,
        None => {
            return Err(
                ApiError {
                    kind: ApiErrorKind::Unauthorized,
                    message: "missing Authorization bearer token",
                },
            );
        },
    };
    if starts_with(v.as_slice(), "Bearer ") {
        proof {
            reveal_strlit("Bearer ");
        }
        let rest = tail_chars(v.as_slice(), 7);
        let t = trim_chars(rest.as_slice());
        if t.len() > 0 {
            return Ok(string_of(rest.as_slice()));
        }
    }
    Err(ApiError { kind: ApiErrorKind::Unauthorized, message: "invalid Authorization bearer token" })
}

/// The authentication context when the auth database is configured.
pub fn require_auth<T>(auth: Option<T>) -> (r: Result<T, ApiError>)
    ensures
        match auth {
            Some(a) => r == Ok::<T, ApiError>(a),
            None => r matches Err(e) && e@ == api_error(
                ApiErrorKind::Unavailable,
                "auth database is not configured"@,
            ),
        },
{
    match auth {
        Some(a) => Ok(a),
        None => Err(
            ApiError { kind: ApiErrorKind::Unavailable, message: "auth database is not configured" },
        ),
    }
}

/// The signing secret from the `JWT_SECRET` setting: it must be set, and at least
/// 32 bytes long.
pub fn jwt_secret(configured: Option<String>) -> (r: Result<String, ApiError>)
    ensures
        configured is None ==> (r matches Err(e) && e@ == api_error(
            ApiErrorKind::Unavailable,
            "JWT_SECRET must be configured when DATABASE_URL is set"@,
        )),
        configured matches Some(s) ==> if byte_len(s@) < 32 {
            r matches Err(e) && e@ == api_error(
                ApiErrorKind::Unavailable,
                "JWT_SECRET must be at least 32 bytes for HS256 signing"@,
            )
        } else {
            r == Ok::<String, ApiError>(s)
        },
{
    match configured {
        None => {
            let e = ApiError {
                kind: ApiErrorKind::Unavailable,
                message: "JWT_SECRET must be configured when DATABASE_URL is set",
            };
            Err(e)
        },
        Some(s) => {
            if s.as_str().len() < 32 {
                Err(
                    ApiError {
                        kind: ApiErrorKind::Unavailable,
                        message: "JWT_SECRET must be at least 32 bytes for HS256 signing",
                    },
                )
            } else {
                Ok(s)
            }
        },
    }
}

/// The length in bytes that `str::len` gives for a string.
pub open spec fn byte_len(s: Seq<char>) -> usize {
    encode_utf8(s).len() as usize
}

/// The Google OAuth client settings.
pub struct GoogleOAuthConfig {
    pub client_id: String,
    pub client_secret: String,
    pub redirect_uri: String,
}

/// Google sign-in is configured when all three of its settings are.
pub fn google_config(
    client_id: Option<String>,
    client_secret: Option<String>,
    redirect_uri: Option<String>,
) -> (r: Option<GoogleOAuthConfig>)
    ensures
        r is Some <==> (client_id is Some && client_secret is Some && redirect_uri is Some),
        r matches Some(c) ==> (client_id == Some(c.client_id) && client_secret == Some(
            c.client_secret,
        ) && redirect_uri == Some(c.redirect_uri)),
{
    match (client_id, client_secret, redirect_uri) {
        (Some(client_id), Some(client_secret), Some(redirect_uri)) => Some(
            GoogleOAuthConfig { client_id, client_secret, redirect_uri },
        ),
        _ => None,
    }
}

// ---------------------------------------------------------------------------
// Access-control seed
// ---------------------------------------------------------------------------

/// The role every user gets by default.
pub open spec fn default_role_name() -> Seq<char> {
    "member"@
}

/// The permissions of ordinary application use.
pub open spec fn default_permission_names() -> Seq<Seq<char>> {
    seq![
        "access:api"@,
        "settings:read"@,
        "settings:write"@,
        "providers:read"@,
        "traces:read"@,
        "traces:write"@,
        "traces:replay"@,
    ]
}

/// The privileges described as admin-only.
pub open spec fn admin_permission_names() -> Seq<Seq<char>> {
    seq!["actions:execute"@]
}

/// Every seeded permission, default ones first.
pub open spec fn seeded_permission_names() -> Seq<Seq<char>> {
    default_permission_names() + admin_permission_names()
}

/// The role/permission pairs that seeding grants: each permission, in order, to
/// `member` and then to `admin`.
pub open spec fn seed_grants() -> Seq<(Seq<char>, Seq<char>)> {
    Seq::new(
        2 * seeded_permission_names().len(),
        |i: int|
            (
                if i % 2 == 0 {
                    "member"@
                } else {
                    "admin"@
                },
                seeded_permission_names()[i / 2],
            ),
    )
}

/// The role every user gets by default.
pub fn default_role() -> (r: &'static str)
    ensures
        r@ == default_role_name(),
{
    "member"
}

/// The permissions of ordinary application use.
pub fn default_permissions() -> (r: Vec<&'static str>)
    ensures
        r@.map_values(|p: &'static str| p@) == default_permission_names(),
{
    let r = vec![
        "access:api",
        "settings:read",
        "settings:write",
        "providers:read",
        "traces:read",
        "traces:write",
        "traces:replay",
    ];
    assert(r@.map_values(|p: &'static str| p@) =~= default_permission_names());
    r
}

/// The privileges described as admin-only.
pub fn admin_permissions() -> (r: Vec<&'static str>)
    ensures
        r@.map_values(|p: &'static str| p@) == admin_permission_names(),
{
    let r = vec!["actions:execute"];
    assert(r@.map_values(|p: &'static str| p@) =~= admin_permission_names());
    r
}

/// The role/permission pairs that seeding grants.
pub fn role_permission_grants() -> (r: Vec<(&'static str, &'static str)>)
    ensures
        r@.map_values(|g: (&'static str, &'static str)| (g.0@, g.1@)) == seed_grants(),
{
    let mut all = default_permissions();
    let mut admin = admin_permissions();
    let ghost d = all@;
    all.append(&mut admin);
    assert(all@.map_values(|p: &'static str| p@) =~= seeded_permission_names());
    let mut r: Vec<(&'static str, &'static str)> = Vec::new();
    let mut i: usize = 0;
    while i < all.len()
        invariant
            i <= all@.len(),
            all@.map_values(|p: &'static str| p@) == seeded_permission_names(),
            r@.len() == 2 * i,
            forall|k: int|
                0 <= k < 2 * i ==> (#[trigger] r@[k]).0@ == seed_grants()[k].0 && r@[k].1@
                    == seed_grants()[k].1,
        decreases all@.len() - i,
    {
        let p = all[i];
        assert(p@ == seeded_permission_names()[i as int]);
        r.push(("member", p));
        r.push(("admin", p));
        proof {
            assert(seed_grants()[2 * i] == ("member"@, p@)) by {
                assert((2 * i) as int % 2 == 0);
                assert((2 * i) as int / 2 == i);
            }
            assert(seed_grants()[2 * i + 1] == ("admin"@, p@)) by {
                assert((2 * i + 1) as int % 2 == 1);
                assert((2 * i + 1) as int / 2 == i);
            }
        }
        i = i + 1;
    }
    assert(r@.map_values(|g: (&'static str, &'static str)| (g.0@, g.1@)) =~= seed_grants());
    r
}

/// Every permission that a route asks for is seeded and granted to the default
/// `member` role, so an ordinary user can reach every authenticated route.
pub proof fn law_member_holds_route_permissions(method: Seq<char>, path: Seq<char>)
    requires
        policy_for(method, path).permission is Some,
    ensures
        seed_grants().contains((default_role_name(), policy_for(method, path).permission.unwrap())),
{
    let g = seed_grants();
    assert(g[0] == ("member"@, "access:api"@));
    assert(g[2] == ("member"@, "settings:read"@));
    assert(g[4] == ("member"@, "settings:write"@));
    assert(g[6] == ("member"@, "providers:read"@));
    assert(g[8] == ("member"@, "traces:read"@));
    assert(g[10] == ("member"@, "traces:write"@));
    assert(g[12] == ("member"@, "traces:replay"@));
    assert(g[14] == ("member"@, "actions:execute"@));
}


/// Seeding grants every seeded permission to both `member` and `admin`, and
/// nothing else: a pair is granted exactly when its role is one of the two and
/// its permission is seeded.
pub proof fn law_seed_grants_both_roles(role: Seq<char>, permission: Seq<char>)
    ensures
        seed_grants().contains((role, permission)) <==> ((role == "member"@ || role == "admin"@)
            && seeded_permission_names().contains(permission)),
{
    let g = seed_grants();
    let n = seeded_permission_names();
    if (role == "member"@ || role == "admin"@) && n.contains(permission) {
        let i = choose|i: int| 0 <= i < n.len() && n[i] == permission;
        if role == "member"@ {
            assert(g[2 * i] == (role, permission));
        } else {
            assert(g[2 * i + 1] == (role, permission));
        }
    }
    if g.contains((role, permission)) {
        let k = choose|k: int| 0 <= k < g.len() && g[k] == (role, permission);
        assert(n[k / 2] == permission);
    }
}

/// A bearer token is the text after `"Bearer "` in the `authorization` header and
/// is never blank; a missing header and a header of another form are refused as
/// unauthorized, each with its own message.
pub proof fn law_bearer_token_source(h: Seq<(Seq<char>, Seq<u8>)>)
    ensures
        header_text(h, "authorization"@) is None ==> bearer_token_of(h) == Err::<Seq<char>, ApiErrorView>(
            api_error(ApiErrorKind::Unauthorized, "missing Authorization bearer token"@),
        ),
        bearer_token_of(h) is Ok ==> header_text(h, "authorization"@) == Some(
            "Bearer "@ + bearer_token_of(h)->Ok_0,
        ) && trim(bearer_token_of(h)->Ok_0).len() > 0,
        header_text(h, "authorization"@) is Some && !has_prefix(
            header_text(h, "authorization"@).unwrap(),
            "Bearer "@,
        ) ==> bearer_token_of(h) == Err::<Seq<char>, ApiErrorView>(
            api_error(ApiErrorKind::Unauthorized, "invalid Authorization bearer token"@),
        ),
{
    reveal_strlit("Bearer ");
    if let Some(v) = header_text(h, "authorization"@) {
        if has_prefix(v, "Bearer "@) {
            assert(v =~= "Bearer "@ + v.skip(7)) by {
                assert(v.subrange(0, 7) =~= "Bearer "@);
            }
        }
    }
}

} // verus!
