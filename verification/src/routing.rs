//! Which policy guards each API route: permission, rate limit, authentication,
//! idempotency and the feature flag that switches it.
use vstd::prelude::*;

use crate::text::{chars_eq_str, chars_of, ends_with, has_prefix, has_suffix, starts_with, str_eq};

verus! {

/// How many requests one client may make to a route within one window.
#[derive(Clone, Copy)]
pub struct RateLimitProfile {
    pub limit: u32,
    pub window_secs: u64,
}

/// The guard of a route.
#[derive(Clone, Copy)]
pub struct RoutePolicy {
    pub permission: Option<&'static str>,
    pub rate: RateLimitProfile,
    pub require_auth: bool,
    pub idempotent: bool,
    pub feature: &'static str,
}

/// A route guard as values.
pub struct PolicyView {
    pub permission: Option<Seq<char>>,
    pub limit: u32,
    pub window_secs: u64,
    pub require_auth: bool,
    pub idempotent: bool,
    pub feature: Seq<char>,
}

impl View for RoutePolicy {
    type V = PolicyView;

    open spec fn view(&self) -> PolicyView {
        PolicyView {
            permission: match self.permission {
                Some(p) => Some(p@),
                None => None,
            },
            limit: self.rate.limit,
            window_secs: self.rate.window_secs,
            require_auth: self.require_auth,
            idempotent: self.idempotent,
            feature: self.feature@,
        }
    }
}

pub open spec fn guard(
    permission: Option<Seq<char>>,
    limit: u32,
    require_auth: bool,
    idempotent: bool,
    feature: Seq<char>,
) -> PolicyView {
    PolicyView { permission, limit, window_secs: 60, require_auth, idempotent, feature }
}

/// The guard of routes that need no account.
pub open spec fn public_policy() -> PolicyView {
    guard(None, 300, false, false, "public"@)
}

/// The guard of an authenticated API route that needs `permission`.
pub open spec fn api_policy(permission: Seq<char>) -> PolicyView {
    guard(Some(permission), 180, true, false, "api"@)
}

/// Paths that the security guard looks at; all others pass it untouched.
pub open spec fn api_scope(path: Seq<char>) -> bool {
    path == "/openapi.json"@ || has_prefix(path, "/api"@) || has_prefix(path, "/internal"@)
}

/// The guard of a request, by method and path.
pub open spec fn policy_for(method: Seq<char>, path: Seq<char>) -> PolicyView {
    let read_or_write = if method == "GET"@ {
        "settings:read"@
    } else {
        "settings:write"@
    };
    if path == "/openapi.json"@ {
        guard(None, 180, false, false, "public"@)
    } else if has_prefix(path, "/api/auth/"@) {
        guard(None, 40, false, method == "POST"@, "auth"@)
    } else if path == "/api/events"@ {
        guard(Some("traces:write"@), 120, true, true, "events"@)
    } else if path == "/api/events/health"@ {
        guard(None, 120, false, false, "events"@)
    } else if path == "/api/cache"@ {
        guard(Some("traces:write"@), 120, true, method == "DELETE"@, "traces"@)
    } else if path == "/api/settings/profile"@ {
        guard(Some("settings:read"@), 120, true, false, "settings"@)
    } else if path == "/api/settings/app"@ || path == "/api/settings/profile/update"@ || path
        == "/api/settings/app/update"@ || path == "/api/settings/keys"@ {
        guard(
            Some(read_or_write),
            120,
            true,
            method != "GET"@ && method != "DELETE"@,
            "settings"@,
        )
    } else if path == "/api/settings/cometapi-key"@ {
        guard(Some(read_or_write), 120, true, method == "PUT"@, "settings"@)
    } else if path == "/api/providers/cometapi/models"@ {
        guard(Some("providers:read"@), 60, true, false, "providers"@)
    } else if path == "/internal/actions/execute"@ {
        guard(Some("actions:execute"@), 30, true, true, "actions"@)
    } else if path == "/api/traces/current"@ {
        if method == "DELETE"@ {
            guard(Some("traces:write"@), 120, true, true, "traces"@)
        } else {
            guard(Some("traces:read"@), 180, true, false, "traces"@)
        }
    } else if path == "/api/traces/current/summary"@ {
        guard(Some("traces:read"@), 180, true, false, "traces"@)
    } else if has_prefix(path, "/api/traces/"@) {
        if has_suffix(path, "/output"@) {
            guard(Some("traces:write"@), 120, true, method == "PATCH"@, "traces"@)
        } else if has_suffix(path, "/replay"@) || has_suffix(path, "/replay-with"@) {
            guard(Some("traces:replay"@), 60, true, true, "traces"@)
        } else {
            guard(Some("traces:read"@), 180, true, false, "traces"@)
        }
    } else if has_prefix(path, "/api/"@) {
        api_policy("access:api"@)
    } else if has_prefix(path, "/internal"@) {
        guard(Some("actions:execute"@), 60, true, false, "internal"@)
    } else {
        public_policy()
    }
}

fn make(
    permission: Option<&'static str>,
    limit: u32,
    require_auth: bool,
    idempotent: bool,
    feature: &'static str,
) -> (r: RoutePolicy)
    ensures
        r@ == guard(
            match permission {
                Some(p) => Some(p@),
                None => None,
            },
            limit,
            require_auth,
            idempotent,
            feature@,
        ),
{
    RoutePolicy {
        permission,
        rate: RateLimitProfile { limit, window_secs: 60 },
        require_auth,
        idempotent,
        feature,
    }
}

impl RoutePolicy {
    /// The guard of routes that need no account.
    pub fn public() -> (r: RoutePolicy)
        ensures
            r@ == public_policy(),
    {
        make(None, 300, false, false, "public")
    }

    /// The guard of an authenticated API route that needs `permission`.
    pub fn api(permission: &'static str) -> (r: RoutePolicy)
        ensures
            r@ == api_policy(permission@),
    {
        make(Some(permission), 180, true, false, "api")
    }
}

/// Whether the security guard looks at requests to `path`.
pub fn is_api_scope(path: &str) -> (r: bool)
    ensures
        r == api_scope(path@),
{
    let p = chars_of(path);
    chars_eq_str(p.as_slice(), "/openapi.json") || starts_with(p.as_slice(), "/api")
        || starts_with(p.as_slice(), "/internal")
}

/// The guard of a request, by method and path.
pub fn route_policy(method: &str, path: &str) -> (r: RoutePolicy)
    ensures
        r@ == policy_for(method@, path@),
{
    let p = chars_of(path);
    let p = p.as_slice();
    let is_get = str_eq(method, "GET");
    let is_post = str_eq(method, "POST");
    let is_put = str_eq(method, "PUT");
    let is_patch = str_eq(method, "PATCH");
    let is_delete = str_eq(method, "DELETE");
    let read_or_write: &'static str = if is_get {
        "settings:read"
    } else {
        "settings:write"
    };
    if chars_eq_str(p, "/openapi.json") {
        return make(None, 180, false, false, "public");
    }
    if starts_with(p, "/api/auth/") {
        return make(None, 40, false, is_post, "auth");
    }
    if chars_eq_str(p, "/api/events") {
        return make(Some("traces:write"), 120, true, true, "events");
    }
    if chars_eq_str(p, "/api/events/health") {
        return make(None, 120, false, false, "events");
    }
    if chars_eq_str(p, "/api/cache") {
        return make(Some("traces:write"), 120, true, is_delete, "traces");
    }
    if chars_eq_str(p, "/api/settings/profile") {
        return make(Some("settings:read"), 120, true, false, "settings");
    }
    if chars_eq_str(p, "/api/settings/app") || chars_eq_str(p, "/api/settings/profile/update")
        || chars_eq_str(p, "/api/settings/app/update") || chars_eq_str(p, "/api/settings/keys") {
        return make(Some(read_or_write), 120, true, !is_get && !is_delete, "settings");
    }
    if chars_eq_str(p, "/api/settings/cometapi-key") {
        return make(Some(read_or_write), 120, true, is_put, "settings");
    }
    if chars_eq_str(p, "/api/providers/cometapi/models") {
        return make(Some("providers:read"), 60, true, false, "providers");
    }
    if chars_eq_str(p, "/internal/actions/execute") {
        return make(Some("actions:execute"), 30, true, true, "actions");
    }
    if chars_eq_str(p, "/api/traces/current") {
        if is_delete {
            return make(Some("traces:write"), 120, true, true, "traces");
        }
        return make(Some("traces:read"), 180, true, false, "traces");
    }
    if chars_eq_str(p, "/api/traces/current/summary") {
        return make(Some("traces:read"), 180, true, false, "traces");
    }
    if starts_with(p, "/api/traces/") {
        if ends_with(p, "/output") {
            return make(Some("traces:write"), 120, true, is_patch, "traces");
        }
        if ends_with(p, "/replay") || ends_with(p, "/replay-with") {
            return make(Some("traces:replay"), 60, true, true, "traces");
        }
        return make(Some("traces:read"), 180, true, false, "traces");
    }
    if starts_with(p, "/api/") {
        return RoutePolicy::api("access:api");
    }
    if starts_with(p, "/internal") {
        return make(Some("actions:execute"), 60, true, false, "internal");
    }
    RoutePolicy::public()
}

/// Every API route other than sign-in and the health probe needs an authenticated
/// caller holding a named permission.
pub proof fn law_api_routes_require_auth(method: Seq<char>, path: Seq<char>)
    requires
        has_prefix(path, "/api/"@),
        !has_prefix(path, "/api/auth/"@),
        path != "/api/events/health"@,
    ensures
        policy_for(method, path).require_auth,
        policy_for(method, path).permission is Some,
{
    reveal_strlit("/api/");
    reveal_strlit("/openapi.json");
    assert(path[1] == 'a') by {
        assert(path.subrange(0, 5)[1] == path[1]);
    }
    assert(path != "/openapi.json"@);
}

/// Internal routes always need an authenticated caller allowed to execute actions.
pub proof fn law_internal_routes_need_execute(method: Seq<char>, path: Seq<char>)
    requires
        has_prefix(path, "/internal"@),
    ensures
        policy_for(method, path).require_auth,
        policy_for(method, path).permission == Some("actions:execute"@),
{
    reveal_strlit("/internal");
    reveal_strlit("/openapi.json");
    reveal_strlit("/api/auth/");
    reveal_strlit("/api/events");
    reveal_strlit("/api/events/health");
    reveal_strlit("/api/cache");
    reveal_strlit("/api/settings/profile");
    reveal_strlit("/api/settings/app");
    reveal_strlit("/api/settings/profile/update");
    reveal_strlit("/api/settings/app/update");
    reveal_strlit("/api/settings/keys");
    reveal_strlit("/api/settings/cometapi-key");
    reveal_strlit("/api/providers/cometapi/models");
    reveal_strlit("/api/traces/current");
    reveal_strlit("/api/traces/current/summary");
    reveal_strlit("/api/traces/");
    reveal_strlit("/api/");
    assert(path[1] == 'i') by {
        assert(path.subrange(0, 9)[1] == path[1]);
    }
    assert(!has_prefix(path, "/api/auth/"@)) by {
        if has_prefix(path, "/api/auth/"@) {
            assert(path.subrange(0, 10)[1] == path[1]);
        }
    }
    assert(!has_prefix(path, "/api/traces/"@)) by {
        if has_prefix(path, "/api/traces/"@) {
            assert(path.subrange(0, 12)[1] == path[1]);
        }
    }
    assert(!has_prefix(path, "/api/"@)) by {
        if has_prefix(path, "/api/"@) {
            assert(path.subrange(0, 5)[1] == path[1]);
        }
    }
}

/// Every route that needs an authenticated caller lies in the guard's scope, so no
/// such route escapes the guard.
pub proof fn law_guarded_routes_in_scope(method: Seq<char>, path: Seq<char>)
    requires
        policy_for(method, path).require_auth,
    ensures
        api_scope(path),
{
    reveal_strlit("/api");
    reveal_strlit("/api/");
    reveal_strlit("/api/events");
    reveal_strlit("/api/cache");
    reveal_strlit("/api/settings/profile");
    reveal_strlit("/api/settings/app");
    reveal_strlit("/api/settings/profile/update");
    reveal_strlit("/api/settings/app/update");
    reveal_strlit("/api/settings/keys");
    reveal_strlit("/api/settings/cometapi-key");
    reveal_strlit("/api/providers/cometapi/models");
    reveal_strlit("/internal/actions/execute");
    reveal_strlit("/internal");
    reveal_strlit("/api/traces/current");
    reveal_strlit("/api/traces/current/summary");
    reveal_strlit("/api/traces/");
    if has_prefix(path, "/api/traces/"@) {
        assert(path.subrange(0, 4) =~= path.subrange(0, 12).subrange(0, 4));
        assert("/api/traces/"@.subrange(0, 4) =~= "/api"@);
    } else if has_prefix(path, "/api/"@) {
        assert(path.subrange(0, 4) =~= path.subrange(0, 5).subrange(0, 4));
        assert("/api/"@.subrange(0, 4) =~= "/api"@);
    } else if has_prefix(path, "/internal"@) {
    } else {
        assert("/api/events"@.subrange(0, 4) =~= "/api"@);
        assert("/api/cache"@.subrange(0, 4) =~= "/api"@);
        assert("/api/settings/profile"@.subrange(0, 4) =~= "/api"@);
        assert("/api/settings/app"@.subrange(0, 4) =~= "/api"@);
        assert("/api/settings/profile/update"@.subrange(0, 4) =~= "/api"@);
        assert("/api/settings/app/update"@.subrange(0, 4) =~= "/api"@);
        assert("/api/settings/keys"@.subrange(0, 4) =~= "/api"@);
        assert("/api/settings/cometapi-key"@.subrange(0, 4) =~= "/api"@);
        assert("/api/providers/cometapi/models"@.subrange(0, 4) =~= "/api"@);
        assert("/api/traces/current"@.subrange(0, 4) =~= "/api"@);
        assert("/api/traces/current/summary"@.subrange(0, 4) =~= "/api"@);
        assert("/internal/actions/execute"@.subrange(0, 9) =~= "/internal"@);
    }
}

/// Settings routes that both read and write: `GET` needs `settings:read`, every
/// other method `settings:write`; the caller must be signed in, at 120 requests a
/// minute, under the `settings` switch.
pub proof fn law_settings_permission_by_method(method: Seq<char>, path: Seq<char>)
    requires
        path == "/api/settings/app"@ || path == "/api/settings/profile/update"@ || path
            == "/api/settings/app/update"@ || path == "/api/settings/keys"@ || path
            == "/api/settings/cometapi-key"@,
    ensures
        policy_for(method, path).permission == Some(
            if method == "GET"@ {
                "settings:read"@
            } else {
                "settings:write"@
            },
        ),
        policy_for(method, path).require_auth,
        policy_for(method, path).limit == 120,
        policy_for(method, path).window_secs == 60,
        policy_for(method, path).feature == "settings"@,
{
    reveal_strlit("/openapi.json");
    reveal_strlit("/api/auth/");
    reveal_strlit("/api/events");
    reveal_strlit("/api/events/health");
    reveal_strlit("/api/cache");
    reveal_strlit("/api/settings/profile");
    reveal_strlit("/api/settings/app");
    reveal_strlit("/api/settings/profile/update");
    reveal_strlit("/api/settings/app/update");
    reveal_strlit("/api/settings/keys");
    reveal_strlit("/api/settings/cometapi-key");
    reveal_strlit("GET");
    reveal_strlit("settings:read");
    reveal_strlit("settings:write");
    assert(path[5] == 's');
    assert(!has_prefix(path, "/api/auth/"@)) by {
        if has_prefix(path, "/api/auth/"@) {
            assert(path.subrange(0, 10)[5] == path[5]);
        }
    }
}


proof fn lemma_route_openapi_json(method: Seq<char>)
    ensures
        policy_for(method, "/openapi.json"@) == (PolicyView { permission: None::<Seq<char>>, limit: 180, window_secs: 60, require_auth: false, idempotent: false, feature: "public"@ }),
{
    reveal_strlit("/openapi.json");
    reveal_strlit("/api/auth/");
    reveal_strlit("/api/events");
    reveal_strlit("/api/events/health");
    reveal_strlit("/api/cache");
    reveal_strlit("/api/settings/profile");
    reveal_strlit("/api/settings/app");
    reveal_strlit("/api/settings/profile/update");
    reveal_strlit("/api/settings/app/update");
    reveal_strlit("/api/settings/keys");
    reveal_strlit("/api/settings/cometapi-key");
    reveal_strlit("/api/providers/cometapi/models");
    reveal_strlit("/internal/actions/execute");
    reveal_strlit("/api/traces/current");
    reveal_strlit("/api/traces/current/summary");
    reveal_strlit("/api/traces/");
    reveal_strlit("/api/");
    reveal_strlit("/internal");
    reveal_strlit("GET");
    reveal_strlit("DELETE");
    reveal_strlit("POST");
    reveal_strlit("PUT");
    reveal_strlit("PATCH");
    assert(!has_prefix("/api/events"@, "/api/auth/"@)) by {
        assert("/api/events"@.subrange(0, 10)[5] != "/api/auth/"@[5]);
    }
    assert(!has_prefix("/api/events/health"@, "/api/auth/"@)) by {
        assert("/api/events/health"@.subrange(0, 10)[5] != "/api/auth/"@[5]);
    }
    assert(!has_prefix("/api/cache"@, "/api/auth/"@)) by {
        assert("/api/cache"@.subrange(0, 10)[5] != "/api/auth/"@[5]);
    }
    assert(!has_prefix("/api/settings/profile"@, "/api/auth/"@)) by {
        assert("/api/settings/profile"@.subrange(0, 10)[5] != "/api/auth/"@[5]);
    }
    assert(!has_prefix("/api/providers/cometapi/models"@, "/api/auth/"@)) by {
        assert("/api/providers/cometapi/models"@.subrange(0, 10)[5] != "/api/auth/"@[5]);
    }
    assert(!has_prefix("/internal/actions/execute"@, "/api/auth/"@)) by {
        assert("/internal/actions/execute"@.subrange(0, 10)[1] != "/api/auth/"@[1]);
    }
    assert(!has_prefix("/api/traces/current"@, "/api/auth/"@)) by {
        assert("/api/traces/current"@.subrange(0, 10)[5] != "/api/auth/"@[5]);
    }
    assert(!has_prefix("/api/traces/current/summary"@, "/api/auth/"@)) by {
        assert("/api/traces/current/summary"@.subrange(0, 10)[5] != "/api/auth/"@[5]);
    }
    assert(!has_prefix("/api/settings/keys"@, "/api/auth/"@)) by {
        assert("/api/settings/keys"@.subrange(0, 10)[5] != "/api/auth/"@[5]);
    }
    assert(!has_prefix("/api/settings/cometapi-key"@, "/api/auth/"@)) by {
        assert("/api/settings/cometapi-key"@.subrange(0, 10)[5] != "/api/auth/"@[5]);
    }
}

proof fn lemma_route_api_events(method: Seq<char>)
    ensures
        policy_for(method, "/api/events"@) == (PolicyView { permission: Some("traces:write"@), limit: 120, window_secs: 60, require_auth: true, idempotent: true, feature: "events"@ }),
{
    reveal_strlit("/openapi.json");
    reveal_strlit("/api/auth/");
    reveal_strlit("/api/events");
    reveal_strlit("/api/events/health");
    reveal_strlit("/api/cache");
    reveal_strlit("/api/settings/profile");
    reveal_strlit("/api/settings/app");
    reveal_strlit("/api/settings/profile/update");
    reveal_strlit("/api/settings/app/update");
    reveal_strlit("/api/settings/keys");
    reveal_strlit("/api/settings/cometapi-key");
    reveal_strlit("/api/providers/cometapi/models");
    reveal_strlit("/internal/actions/execute");
    reveal_strlit("/api/traces/current");
    reveal_strlit("/api/traces/current/summary");
    reveal_strlit("/api/traces/");
    reveal_strlit("/api/");
    reveal_strlit("/internal");
    reveal_strlit("GET");
    reveal_strlit("DELETE");
    reveal_strlit("POST");
    reveal_strlit("PUT");
    reveal_strlit("PATCH");
    assert(!has_prefix("/api/events"@, "/api/auth/"@)) by {
        assert("/api/events"@.subrange(0, 10)[5] != "/api/auth/"@[5]);
    }
    assert(!has_prefix("/api/events/health"@, "/api/auth/"@)) by {
        assert("/api/events/health"@.subrange(0, 10)[5] != "/api/auth/"@[5]);
    }
    assert(!has_prefix("/api/cache"@, "/api/auth/"@)) by {
        assert("/api/cache"@.subrange(0, 10)[5] != "/api/auth/"@[5]);
    }
    assert(!has_prefix("/api/settings/profile"@, "/api/auth/"@)) by {
        assert("/api/settings/profile"@.subrange(0, 10)[5] != "/api/auth/"@[5]);
    }
    assert(!has_prefix("/api/providers/cometapi/models"@, "/api/auth/"@)) by {
        assert("/api/providers/cometapi/models"@.subrange(0, 10)[5] != "/api/auth/"@[5]);
    }
    assert(!has_prefix("/internal/actions/execute"@, "/api/auth/"@)) by {
        assert("/internal/actions/execute"@.subrange(0, 10)[1] != "/api/auth/"@[1]);
    }
    assert(!has_prefix("/api/traces/current"@, "/api/auth/"@)) by {
        assert("/api/traces/current"@.subrange(0, 10)[5] != "/api/auth/"@[5]);
    }
    assert(!has_prefix("/api/traces/current/summary"@, "/api/auth/"@)) by {
        assert("/api/traces/current/summary"@.subrange(0, 10)[5] != "/api/auth/"@[5]);
    }
    assert(!has_prefix("/api/settings/keys"@, "/api/auth/"@)) by {
        assert("/api/settings/keys"@.subrange(0, 10)[5] != "/api/auth/"@[5]);
    }
    assert(!has_prefix("/api/settings/cometapi-key"@, "/api/auth/"@)) by {
        assert("/api/settings/cometapi-key"@.subrange(0, 10)[5] != "/api/auth/"@[5]);
    }
    assert("/api/events"@.len() != "/openapi.json"@.len());
}

proof fn lemma_route_api_events_health(method: Seq<char>)
    ensures
        policy_for(method, "/api/events/health"@) == (PolicyView { permission: None::<Seq<char>>, limit: 120, window_secs: 60, require_auth: false, idempotent: false, feature: "events"@ }),
{
    reveal_strlit("/openapi.json");
    reveal_strlit("/api/auth/");
    reveal_strlit("/api/events");
    reveal_strlit("/api/events/health");
    reveal_strlit("/api/cache");
    reveal_strlit("/api/settings/profile");
    reveal_strlit("/api/settings/app");
    reveal_strlit("/api/settings/profile/update");
    reveal_strlit("/api/settings/app/update");
    reveal_strlit("/api/settings/keys");
    reveal_strlit("/api/settings/cometapi-key");
    reveal_strlit("/api/providers/cometapi/models");
    reveal_strlit("/internal/actions/execute");
    reveal_strlit("/api/traces/current");
    reveal_strlit("/api/traces/current/summary");
    reveal_strlit("/api/traces/");
    reveal_strlit("/api/");
    reveal_strlit("/internal");
    reveal_strlit("GET");
    reveal_strlit("DELETE");
    reveal_strlit("POST");
    reveal_strlit("PUT");
    reveal_strlit("PATCH");
    assert(!has_prefix("/api/events"@, "/api/auth/"@)) by {
        assert("/api/events"@.subrange(0, 10)[5] != "/api/auth/"@[5]);
    }
    assert(!has_prefix("/api/events/health"@, "/api/auth/"@)) by {
        assert("/api/events/health"@.subrange(0, 10)[5] != "/api/auth/"@[5]);
    }
    assert(!has_prefix("/api/cache"@, "/api/auth/"@)) by {
        assert("/api/cache"@.subrange(0, 10)[5] != "/api/auth/"@[5]);
    }
    assert(!has_prefix("/api/settings/profile"@, "/api/auth/"@)) by {
        assert("/api/settings/profile"@.subrange(0, 10)[5] != "/api/auth/"@[5]);
    }
    assert(!has_prefix("/api/providers/cometapi/models"@, "/api/auth/"@)) by {
        assert("/api/providers/cometapi/models"@.subrange(0, 10)[5] != "/api/auth/"@[5]);
    }
    assert(!has_prefix("/internal/actions/execute"@, "/api/auth/"@)) by {
        assert("/internal/actions/execute"@.subrange(0, 10)[1] != "/api/auth/"@[1]);
    }
    assert(!has_prefix("/api/traces/current"@, "/api/auth/"@)) by {
        assert("/api/traces/current"@.subrange(0, 10)[5] != "/api/auth/"@[5]);
    }
    assert(!has_prefix("/api/traces/current/summary"@, "/api/auth/"@)) by {
        assert("/api/traces/current/summary"@.subrange(0, 10)[5] != "/api/auth/"@[5]);
    }
    assert(!has_prefix("/api/settings/keys"@, "/api/auth/"@)) by {
        assert("/api/settings/keys"@.subrange(0, 10)[5] != "/api/auth/"@[5]);
    }
    assert(!has_prefix("/api/settings/cometapi-key"@, "/api/auth/"@)) by {
        assert("/api/settings/cometapi-key"@.subrange(0, 10)[5] != "/api/auth/"@[5]);
    }
}

proof fn lemma_route_api_cache(method: Seq<char>)
    ensures
        policy_for(method, "/api/cache"@) == (PolicyView { permission: Some("traces:write"@), limit: 120, window_secs: 60, require_auth: true, idempotent: method == "DELETE"@, feature: "traces"@ }),
{
    reveal_strlit("/openapi.json");
    reveal_strlit("/api/auth/");
    reveal_strlit("/api/events");
    reveal_strlit("/api/events/health");
    reveal_strlit("/api/cache");
    reveal_strlit("/api/settings/profile");
    reveal_strlit("/api/settings/app");
    reveal_strlit("/api/settings/profile/update");
    reveal_strlit("/api/settings/app/update");
    reveal_strlit("/api/settings/keys");
    reveal_strlit("/api/settings/cometapi-key");
    reveal_strlit("/api/providers/cometapi/models");
    reveal_strlit("/internal/actions/execute");
    reveal_strlit("/api/traces/current");
    reveal_strlit("/api/traces/current/summary");
    reveal_strlit("/api/traces/");
    reveal_strlit("/api/");
    reveal_strlit("/internal");
    reveal_strlit("GET");
    reveal_strlit("DELETE");
    reveal_strlit("POST");
    reveal_strlit("PUT");
    reveal_strlit("PATCH");
    assert(!has_prefix("/api/events"@, "/api/auth/"@)) by {
        assert("/api/events"@.subrange(0, 10)[5] != "/api/auth/"@[5]);
    }
    assert(!has_prefix("/api/events/health"@, "/api/auth/"@)) by {
        assert("/api/events/health"@.subrange(0, 10)[5] != "/api/auth/"@[5]);
    }
    assert(!has_prefix("/api/cache"@, "/api/auth/"@)) by {
        assert("/api/cache"@.subrange(0, 10)[5] != "/api/auth/"@[5]);
    }
    assert(!has_prefix("/api/settings/profile"@, "/api/auth/"@)) by {
        assert("/api/settings/profile"@.subrange(0, 10)[5] != "/api/auth/"@[5]);
    }
    assert(!has_prefix("/api/providers/cometapi/models"@, "/api/auth/"@)) by {
        assert("/api/providers/cometapi/models"@.subrange(0, 10)[5] != "/api/auth/"@[5]);
    }
    assert(!has_prefix("/internal/actions/execute"@, "/api/auth/"@)) by {
        assert("/internal/actions/execute"@.subrange(0, 10)[1] != "/api/auth/"@[1]);
    }
    assert(!has_prefix("/api/traces/current"@, "/api/auth/"@)) by {
        assert("/api/traces/current"@.subrange(0, 10)[5] != "/api/auth/"@[5]);
    }
    assert(!has_prefix("/api/traces/current/summary"@, "/api/auth/"@)) by {
        assert("/api/traces/current/summary"@.subrange(0, 10)[5] != "/api/auth/"@[5]);
    }
    assert(!has_prefix("/api/settings/keys"@, "/api/auth/"@)) by {
        assert("/api/settings/keys"@.subrange(0, 10)[5] != "/api/auth/"@[5]);
    }
    assert(!has_prefix("/api/settings/cometapi-key"@, "/api/auth/"@)) by {
        assert("/api/settings/cometapi-key"@.subrange(0, 10)[5] != "/api/auth/"@[5]);
    }
}

proof fn lemma_route_api_settings_profile(method: Seq<char>)
    ensures
        policy_for(method, "/api/settings/profile"@) == (PolicyView { permission: Some("settings:read"@), limit: 120, window_secs: 60, require_auth: true, idempotent: false, feature: "settings"@ }),
{
    reveal_strlit("/openapi.json");
    reveal_strlit("/api/auth/");
    reveal_strlit("/api/events");
    reveal_strlit("/api/events/health");
    reveal_strlit("/api/cache");
    reveal_strlit("/api/settings/profile");
    reveal_strlit("/api/settings/app");
    reveal_strlit("/api/settings/profile/update");
    reveal_strlit("/api/settings/app/update");
    reveal_strlit("/api/settings/keys");
    reveal_strlit("/api/settings/cometapi-key");
    reveal_strlit("/api/providers/cometapi/models");
    reveal_strlit("/internal/actions/execute");
    reveal_strlit("/api/traces/current");
    reveal_strlit("/api/traces/current/summary");
    reveal_strlit("/api/traces/");
    reveal_strlit("/api/");
    reveal_strlit("/internal");
    reveal_strlit("GET");
    reveal_strlit("DELETE");
    reveal_strlit("POST");
    reveal_strlit("PUT");
    reveal_strlit("PATCH");
    assert(!has_prefix("/api/events"@, "/api/auth/"@)) by {
        assert("/api/events"@.subrange(0, 10)[5] != "/api/auth/"@[5]);
    }
    assert(!has_prefix("/api/events/health"@, "/api/auth/"@)) by {
        assert("/api/events/health"@.subrange(0, 10)[5] != "/api/auth/"@[5]);
    }
    assert(!has_prefix("/api/cache"@, "/api/auth/"@)) by {
        assert("/api/cache"@.subrange(0, 10)[5] != "/api/auth/"@[5]);
    }
    assert(!has_prefix("/api/settings/profile"@, "/api/auth/"@)) by {
        assert("/api/settings/profile"@.subrange(0, 10)[5] != "/api/auth/"@[5]);
    }
    assert(!has_prefix("/api/providers/cometapi/models"@, "/api/auth/"@)) by {
        assert("/api/providers/cometapi/models"@.subrange(0, 10)[5] != "/api/auth/"@[5]);
    }
    assert(!has_prefix("/internal/actions/execute"@, "/api/auth/"@)) by {
        assert("/internal/actions/execute"@.subrange(0, 10)[1] != "/api/auth/"@[1]);
    }
    assert(!has_prefix("/api/traces/current"@, "/api/auth/"@)) by {
        assert("/api/traces/current"@.subrange(0, 10)[5] != "/api/auth/"@[5]);
    }
    assert(!has_prefix("/api/traces/current/summary"@, "/api/auth/"@)) by {
        assert("/api/traces/current/summary"@.subrange(0, 10)[5] != "/api/auth/"@[5]);
    }
    assert(!has_prefix("/api/settings/keys"@, "/api/auth/"@)) by {
        assert("/api/settings/keys"@.subrange(0, 10)[5] != "/api/auth/"@[5]);
    }
    assert(!has_prefix("/api/settings/cometapi-key"@, "/api/auth/"@)) by {
        assert("/api/settings/cometapi-key"@.subrange(0, 10)[5] != "/api/auth/"@[5]);
    }
}

proof fn lemma_route_api_providers_cometapi_models(method: Seq<char>)
    ensures
        policy_for(method, "/api/providers/cometapi/models"@) == (PolicyView { permission: Some("providers:read"@), limit: 60, window_secs: 60, require_auth: true, idempotent: false, feature: "providers"@ }),
{
    reveal_strlit("/openapi.json");
    reveal_strlit("/api/auth/");
    reveal_strlit("/api/events");
    reveal_strlit("/api/events/health");
    reveal_strlit("/api/cache");
    reveal_strlit("/api/settings/profile");
    reveal_strlit("/api/settings/app");
    reveal_strlit("/api/settings/profile/update");
    reveal_strlit("/api/settings/app/update");
    reveal_strlit("/api/settings/keys");
    reveal_strlit("/api/settings/cometapi-key");
    reveal_strlit("/api/providers/cometapi/models");
    reveal_strlit("/internal/actions/execute");
    reveal_strlit("/api/traces/current");
    reveal_strlit("/api/traces/current/summary");
    reveal_strlit("/api/traces/");
    reveal_strlit("/api/");
    reveal_strlit("/internal");
    reveal_strlit("GET");
    reveal_strlit("DELETE");
    reveal_strlit("POST");
    reveal_strlit("PUT");
    reveal_strlit("PATCH");
    assert(!has_prefix("/api/events"@, "/api/auth/"@)) by {
        assert("/api/events"@.subrange(0, 10)[5] != "/api/auth/"@[5]);
    }
    assert(!has_prefix("/api/events/health"@, "/api/auth/"@)) by {
        assert("/api/events/health"@.subrange(0, 10)[5] != "/api/auth/"@[5]);
    }
    assert(!has_prefix("/api/cache"@, "/api/auth/"@)) by {
        assert("/api/cache"@.subrange(0, 10)[5] != "/api/auth/"@[5]);
    }
    assert(!has_prefix("/api/settings/profile"@, "/api/auth/"@)) by {
        assert("/api/settings/profile"@.subrange(0, 10)[5] != "/api/auth/"@[5]);
    }
    assert(!has_prefix("/api/providers/cometapi/models"@, "/api/auth/"@)) by {
        assert("/api/providers/cometapi/models"@.subrange(0, 10)[5] != "/api/auth/"@[5]);
    }
    assert(!has_prefix("/internal/actions/execute"@, "/api/auth/"@)) by {
        assert("/internal/actions/execute"@.subrange(0, 10)[1] != "/api/auth/"@[1]);
    }
    assert(!has_prefix("/api/traces/current"@, "/api/auth/"@)) by {
        assert("/api/traces/current"@.subrange(0, 10)[5] != "/api/auth/"@[5]);
    }
    assert(!has_prefix("/api/traces/current/summary"@, "/api/auth/"@)) by {
        assert("/api/traces/current/summary"@.subrange(0, 10)[5] != "/api/auth/"@[5]);
    }
    assert(!has_prefix("/api/settings/keys"@, "/api/auth/"@)) by {
        assert("/api/settings/keys"@.subrange(0, 10)[5] != "/api/auth/"@[5]);
    }
    assert(!has_prefix("/api/settings/cometapi-key"@, "/api/auth/"@)) by {
        assert("/api/settings/cometapi-key"@.subrange(0, 10)[5] != "/api/auth/"@[5]);
    }
}

proof fn lemma_route_internal_actions_execute(method: Seq<char>)
    ensures
        policy_for(method, "/internal/actions/execute"@) == (PolicyView { permission: Some("actions:execute"@), limit: 30, window_secs: 60, require_auth: true, idempotent: true, feature: "actions"@ }),
{
    reveal_strlit("/openapi.json");
    reveal_strlit("/api/auth/");
    reveal_strlit("/api/events");
    reveal_strlit("/api/events/health");
    reveal_strlit("/api/cache");
    reveal_strlit("/api/settings/profile");
    reveal_strlit("/api/settings/app");
    reveal_strlit("/api/settings/profile/update");
    reveal_strlit("/api/settings/app/update");
    reveal_strlit("/api/settings/keys");
    reveal_strlit("/api/settings/cometapi-key");
    reveal_strlit("/api/providers/cometapi/models");
    reveal_strlit("/internal/actions/execute");
    reveal_strlit("/api/traces/current");
    reveal_strlit("/api/traces/current/summary");
    reveal_strlit("/api/traces/");
    reveal_strlit("/api/");
    reveal_strlit("/internal");
    reveal_strlit("GET");
    reveal_strlit("DELETE");
    reveal_strlit("POST");
    reveal_strlit("PUT");
    reveal_strlit("PATCH");
    assert(!has_prefix("/api/events"@, "/api/auth/"@)) by {
        assert("/api/events"@.subrange(0, 10)[5] != "/api/auth/"@[5]);
    }
    assert(!has_prefix("/api/events/health"@, "/api/auth/"@)) by {
        assert("/api/events/health"@.subrange(0, 10)[5] != "/api/auth/"@[5]);
    }
    assert(!has_prefix("/api/cache"@, "/api/auth/"@)) by {
        assert("/api/cache"@.subrange(0, 10)[5] != "/api/auth/"@[5]);
    }
    assert(!has_prefix("/api/settings/profile"@, "/api/auth/"@)) by {
        assert("/api/settings/profile"@.subrange(0, 10)[5] != "/api/auth/"@[5]);
    }
    assert(!has_prefix("/api/providers/cometapi/models"@, "/api/auth/"@)) by {
        assert("/api/providers/cometapi/models"@.subrange(0, 10)[5] != "/api/auth/"@[5]);
    }
    assert(!has_prefix("/internal/actions/execute"@, "/api/auth/"@)) by {
        assert("/internal/actions/execute"@.subrange(0, 10)[1] != "/api/auth/"@[1]);
    }
    assert(!has_prefix("/api/traces/current"@, "/api/auth/"@)) by {
        assert("/api/traces/current"@.subrange(0, 10)[5] != "/api/auth/"@[5]);
    }
    assert(!has_prefix("/api/traces/current/summary"@, "/api/auth/"@)) by {
        assert("/api/traces/current/summary"@.subrange(0, 10)[5] != "/api/auth/"@[5]);
    }
    assert(!has_prefix("/api/settings/keys"@, "/api/auth/"@)) by {
        assert("/api/settings/keys"@.subrange(0, 10)[5] != "/api/auth/"@[5]);
    }
    assert(!has_prefix("/api/settings/cometapi-key"@, "/api/auth/"@)) by {
        assert("/api/settings/cometapi-key"@.subrange(0, 10)[5] != "/api/auth/"@[5]);
    }
}

proof fn lemma_route_api_traces_current_summary(method: Seq<char>)
    ensures
        policy_for(method, "/api/traces/current/summary"@) == (PolicyView { permission: Some("traces:read"@), limit: 180, window_secs: 60, require_auth: true, idempotent: false, feature: "traces"@ }),
{
    reveal_strlit("/openapi.json");
    reveal_strlit("/api/auth/");
    reveal_strlit("/api/events");
    reveal_strlit("/api/events/health");
    reveal_strlit("/api/cache");
    reveal_strlit("/api/settings/profile");
    reveal_strlit("/api/settings/app");
    reveal_strlit("/api/settings/profile/update");
    reveal_strlit("/api/settings/app/update");
    reveal_strlit("/api/settings/keys");
    reveal_strlit("/api/settings/cometapi-key");
    reveal_strlit("/api/providers/cometapi/models");
    reveal_strlit("/internal/actions/execute");
    reveal_strlit("/api/traces/current");
    reveal_strlit("/api/traces/current/summary");
    reveal_strlit("/api/traces/");
    reveal_strlit("/api/");
    reveal_strlit("/internal");
    reveal_strlit("GET");
    reveal_strlit("DELETE");
    reveal_strlit("POST");
    reveal_strlit("PUT");
    reveal_strlit("PATCH");
    assert(!has_prefix("/api/events"@, "/api/auth/"@)) by {
        assert("/api/events"@.subrange(0, 10)[5] != "/api/auth/"@[5]);
    }
    assert(!has_prefix("/api/events/health"@, "/api/auth/"@)) by {
        assert("/api/events/health"@.subrange(0, 10)[5] != "/api/auth/"@[5]);
    }
    assert(!has_prefix("/api/cache"@, "/api/auth/"@)) by {
        assert("/api/cache"@.subrange(0, 10)[5] != "/api/auth/"@[5]);
    }
    assert(!has_prefix("/api/settings/profile"@, "/api/auth/"@)) by {
        assert("/api/settings/profile"@.subrange(0, 10)[5] != "/api/auth/"@[5]);
    }
    assert(!has_prefix("/api/providers/cometapi/models"@, "/api/auth/"@)) by {
        assert("/api/providers/cometapi/models"@.subrange(0, 10)[5] != "/api/auth/"@[5]);
    }
    assert(!has_prefix("/internal/actions/execute"@, "/api/auth/"@)) by {
        assert("/internal/actions/execute"@.subrange(0, 10)[1] != "/api/auth/"@[1]);
    }
    assert(!has_prefix("/api/traces/current"@, "/api/auth/"@)) by {
        assert("/api/traces/current"@.subrange(0, 10)[5] != "/api/auth/"@[5]);
    }
    assert(!has_prefix("/api/traces/current/summary"@, "/api/auth/"@)) by {
        assert("/api/traces/current/summary"@.subrange(0, 10)[5] != "/api/auth/"@[5]);
    }
    assert(!has_prefix("/api/settings/keys"@, "/api/auth/"@)) by {
        assert("/api/settings/keys"@.subrange(0, 10)[5] != "/api/auth/"@[5]);
    }
    assert(!has_prefix("/api/settings/cometapi-key"@, "/api/auth/"@)) by {
        assert("/api/settings/cometapi-key"@.subrange(0, 10)[5] != "/api/auth/"@[5]);
    }
}

proof fn lemma_route_api_traces_current(method: Seq<char>)
    ensures
        policy_for(method, "/api/traces/current"@) == (if method == "DELETE"@ {
            (PolicyView { permission: Some("traces:write"@), limit: 120, window_secs: 60, require_auth: true, idempotent: true, feature: "traces"@ })
        } else {
            (PolicyView { permission: Some("traces:read"@), limit: 180, window_secs: 60, require_auth: true, idempotent: false, feature: "traces"@ })
        }),
{
    reveal_strlit("/openapi.json");
    reveal_strlit("/api/auth/");
    reveal_strlit("/api/events");
    reveal_strlit("/api/events/health");
    reveal_strlit("/api/cache");
    reveal_strlit("/api/settings/profile");
    reveal_strlit("/api/settings/app");
    reveal_strlit("/api/settings/profile/update");
    reveal_strlit("/api/settings/app/update");
    reveal_strlit("/api/settings/keys");
    reveal_strlit("/api/settings/cometapi-key");
    reveal_strlit("/api/providers/cometapi/models");
    reveal_strlit("/internal/actions/execute");
    reveal_strlit("/api/traces/current");
    reveal_strlit("/api/traces/current/summary");
    reveal_strlit("/api/traces/");
    reveal_strlit("/api/");
    reveal_strlit("/internal");
    reveal_strlit("GET");
    reveal_strlit("DELETE");
    reveal_strlit("POST");
    reveal_strlit("PUT");
    reveal_strlit("PATCH");
    assert(!has_prefix("/api/events"@, "/api/auth/"@)) by {
        assert("/api/events"@.subrange(0, 10)[5] != "/api/auth/"@[5]);
    }
    assert(!has_prefix("/api/events/health"@, "/api/auth/"@)) by {
        assert("/api/events/health"@.subrange(0, 10)[5] != "/api/auth/"@[5]);
    }
    assert(!has_prefix("/api/cache"@, "/api/auth/"@)) by {
        assert("/api/cache"@.subrange(0, 10)[5] != "/api/auth/"@[5]);
    }
    assert(!has_prefix("/api/settings/profile"@, "/api/auth/"@)) by {
        assert("/api/settings/profile"@.subrange(0, 10)[5] != "/api/auth/"@[5]);
    }
    assert(!has_prefix("/api/providers/cometapi/models"@, "/api/auth/"@)) by {
        assert("/api/providers/cometapi/models"@.subrange(0, 10)[5] != "/api/auth/"@[5]);
    }
    assert(!has_prefix("/internal/actions/execute"@, "/api/auth/"@)) by {
        assert("/internal/actions/execute"@.subrange(0, 10)[1] != "/api/auth/"@[1]);
    }
    assert(!has_prefix("/api/traces/current"@, "/api/auth/"@)) by {
        assert("/api/traces/current"@.subrange(0, 10)[5] != "/api/auth/"@[5]);
    }
    assert(!has_prefix("/api/traces/current/summary"@, "/api/auth/"@)) by {
        assert("/api/traces/current/summary"@.subrange(0, 10)[5] != "/api/auth/"@[5]);
    }
    assert(!has_prefix("/api/settings/keys"@, "/api/auth/"@)) by {
        assert("/api/settings/keys"@.subrange(0, 10)[5] != "/api/auth/"@[5]);
    }
    assert(!has_prefix("/api/settings/cometapi-key"@, "/api/auth/"@)) by {
        assert("/api/settings/cometapi-key"@.subrange(0, 10)[5] != "/api/auth/"@[5]);
    }
}

proof fn lemma_route_api_settings_keys(method: Seq<char>)
    ensures
        policy_for(method, "/api/settings/keys"@).idempotent == (method != "GET"@ && method != "DELETE"@),
{
    reveal_strlit("/openapi.json");
    reveal_strlit("/api/auth/");
    reveal_strlit("/api/events");
    reveal_strlit("/api/events/health");
    reveal_strlit("/api/cache");
    reveal_strlit("/api/settings/profile");
    reveal_strlit("/api/settings/app");
    reveal_strlit("/api/settings/profile/update");
    reveal_strlit("/api/settings/app/update");
    reveal_strlit("/api/settings/keys");
    reveal_strlit("/api/settings/cometapi-key");
    reveal_strlit("/api/providers/cometapi/models");
    reveal_strlit("/internal/actions/execute");
    reveal_strlit("/api/traces/current");
    reveal_strlit("/api/traces/current/summary");
    reveal_strlit("/api/traces/");
    reveal_strlit("/api/");
    reveal_strlit("/internal");
    reveal_strlit("GET");
    reveal_strlit("DELETE");
    reveal_strlit("POST");
    reveal_strlit("PUT");
    reveal_strlit("PATCH");
    assert(!has_prefix("/api/events"@, "/api/auth/"@)) by {
        assert("/api/events"@.subrange(0, 10)[5] != "/api/auth/"@[5]);
    }
    assert(!has_prefix("/api/events/health"@, "/api/auth/"@)) by {
        assert("/api/events/health"@.subrange(0, 10)[5] != "/api/auth/"@[5]);
    }
    assert(!has_prefix("/api/cache"@, "/api/auth/"@)) by {
        assert("/api/cache"@.subrange(0, 10)[5] != "/api/auth/"@[5]);
    }
    assert(!has_prefix("/api/settings/profile"@, "/api/auth/"@)) by {
        assert("/api/settings/profile"@.subrange(0, 10)[5] != "/api/auth/"@[5]);
    }
    assert(!has_prefix("/api/providers/cometapi/models"@, "/api/auth/"@)) by {
        assert("/api/providers/cometapi/models"@.subrange(0, 10)[5] != "/api/auth/"@[5]);
    }
    assert(!has_prefix("/internal/actions/execute"@, "/api/auth/"@)) by {
        assert("/internal/actions/execute"@.subrange(0, 10)[1] != "/api/auth/"@[1]);
    }
    assert(!has_prefix("/api/traces/current"@, "/api/auth/"@)) by {
        assert("/api/traces/current"@.subrange(0, 10)[5] != "/api/auth/"@[5]);
    }
    assert(!has_prefix("/api/traces/current/summary"@, "/api/auth/"@)) by {
        assert("/api/traces/current/summary"@.subrange(0, 10)[5] != "/api/auth/"@[5]);
    }
    assert(!has_prefix("/api/settings/keys"@, "/api/auth/"@)) by {
        assert("/api/settings/keys"@.subrange(0, 10)[5] != "/api/auth/"@[5]);
    }
    assert(!has_prefix("/api/settings/cometapi-key"@, "/api/auth/"@)) by {
        assert("/api/settings/cometapi-key"@.subrange(0, 10)[5] != "/api/auth/"@[5]);
    }
}

proof fn lemma_route_api_settings_cometapi_key(method: Seq<char>)
    ensures
        policy_for(method, "/api/settings/cometapi-key"@).idempotent == (method == "PUT"@),
{
    reveal_strlit("/openapi.json");
    reveal_strlit("/api/auth/");
    reveal_strlit("/api/events");
    reveal_strlit("/api/events/health");
    reveal_strlit("/api/cache");
    reveal_strlit("/api/settings/profile");
    reveal_strlit("/api/settings/app");
    reveal_strlit("/api/settings/profile/update");
    reveal_strlit("/api/settings/app/update");
    reveal_strlit("/api/settings/keys");
    reveal_strlit("/api/settings/cometapi-key");
    reveal_strlit("/api/providers/cometapi/models");
    reveal_strlit("/internal/actions/execute");
    reveal_strlit("/api/traces/current");
    reveal_strlit("/api/traces/current/summary");
    reveal_strlit("/api/traces/");
    reveal_strlit("/api/");
    reveal_strlit("/internal");
    reveal_strlit("GET");
    reveal_strlit("DELETE");
    reveal_strlit("POST");
    reveal_strlit("PUT");
    reveal_strlit("PATCH");
    assert(!has_prefix("/api/events"@, "/api/auth/"@)) by {
        assert("/api/events"@.subrange(0, 10)[5] != "/api/auth/"@[5]);
    }
    assert(!has_prefix("/api/events/health"@, "/api/auth/"@)) by {
        assert("/api/events/health"@.subrange(0, 10)[5] != "/api/auth/"@[5]);
    }
    assert(!has_prefix("/api/cache"@, "/api/auth/"@)) by {
        assert("/api/cache"@.subrange(0, 10)[5] != "/api/auth/"@[5]);
    }
    assert(!has_prefix("/api/settings/profile"@, "/api/auth/"@)) by {
        assert("/api/settings/profile"@.subrange(0, 10)[5] != "/api/auth/"@[5]);
    }
    assert(!has_prefix("/api/providers/cometapi/models"@, "/api/auth/"@)) by {
        assert("/api/providers/cometapi/models"@.subrange(0, 10)[5] != "/api/auth/"@[5]);
    }
    assert(!has_prefix("/internal/actions/execute"@, "/api/auth/"@)) by {
        assert("/internal/actions/execute"@.subrange(0, 10)[1] != "/api/auth/"@[1]);
    }
    assert(!has_prefix("/api/traces/current"@, "/api/auth/"@)) by {
        assert("/api/traces/current"@.subrange(0, 10)[5] != "/api/auth/"@[5]);
    }
    assert(!has_prefix("/api/traces/current/summary"@, "/api/auth/"@)) by {
        assert("/api/traces/current/summary"@.subrange(0, 10)[5] != "/api/auth/"@[5]);
    }
    assert(!has_prefix("/api/settings/keys"@, "/api/auth/"@)) by {
        assert("/api/settings/keys"@.subrange(0, 10)[5] != "/api/auth/"@[5]);
    }
    assert(!has_prefix("/api/settings/cometapi-key"@, "/api/auth/"@)) by {
        assert("/api/settings/cometapi-key"@.subrange(0, 10)[5] != "/api/auth/"@[5]);
    }
}

/// The guard of each route with a fixed path, for any method: its permission,
/// its limit per minute, whether it needs a signed-in caller, whether it is
/// idempotent, and its feature switch. Deleting the current trace writes and is
/// idempotent; any other method on it only reads.
pub proof fn law_fixed_routes(method: Seq<char>)
    ensures
        policy_for(method, "/openapi.json"@) == (PolicyView { permission: None::<Seq<char>>, limit: 180, window_secs: 60, require_auth: false, idempotent: false, feature: "public"@ }),
        policy_for(method, "/api/events"@) == (PolicyView { permission: Some("traces:write"@), limit: 120, window_secs: 60, require_auth: true, idempotent: true, feature: "events"@ }),
        policy_for(method, "/api/events/health"@) == (PolicyView { permission: None::<Seq<char>>, limit: 120, window_secs: 60, require_auth: false, idempotent: false, feature: "events"@ }),
        policy_for(method, "/api/cache"@) == (PolicyView { permission: Some("traces:write"@), limit: 120, window_secs: 60, require_auth: true, idempotent: method == "DELETE"@, feature: "traces"@ }),
        policy_for(method, "/api/settings/profile"@) == (PolicyView { permission: Some("settings:read"@), limit: 120, window_secs: 60, require_auth: true, idempotent: false, feature: "settings"@ }),
        policy_for(method, "/api/providers/cometapi/models"@) == (PolicyView { permission: Some("providers:read"@), limit: 60, window_secs: 60, require_auth: true, idempotent: false, feature: "providers"@ }),
        policy_for(method, "/internal/actions/execute"@) == (PolicyView { permission: Some("actions:execute"@), limit: 30, window_secs: 60, require_auth: true, idempotent: true, feature: "actions"@ }),
        policy_for(method, "/api/traces/current/summary"@) == (PolicyView { permission: Some("traces:read"@), limit: 180, window_secs: 60, require_auth: true, idempotent: false, feature: "traces"@ }),
        policy_for(method, "/api/traces/current"@) == (if method == "DELETE"@ {
            (PolicyView { permission: Some("traces:write"@), limit: 120, window_secs: 60, require_auth: true, idempotent: true, feature: "traces"@ })
        } else {
            (PolicyView { permission: Some("traces:read"@), limit: 180, window_secs: 60, require_auth: true, idempotent: false, feature: "traces"@ })
        }),
        policy_for(method, "/api/settings/keys"@).idempotent == (method != "GET"@ && method != "DELETE"@),
        policy_for(method, "/api/settings/cometapi-key"@).idempotent == (method == "PUT"@),
{
    lemma_route_openapi_json(method);
    lemma_route_api_events(method);
    lemma_route_api_events_health(method);
    lemma_route_api_cache(method);
    lemma_route_api_settings_profile(method);
    lemma_route_api_providers_cometapi_models(method);
    lemma_route_internal_actions_execute(method);
    lemma_route_api_traces_current_summary(method);
    lemma_route_api_traces_current(method);
    lemma_route_api_settings_keys(method);
    lemma_route_api_settings_cometapi_key(method);
}

/// Sign-in routes (`/api/auth/...`) need no account and allow 40 requests a
/// minute; a `POST` to them is idempotent.
pub proof fn law_sign_in_routes(method: Seq<char>, path: Seq<char>)
    requires
        has_prefix(path, "/api/auth/"@),
    ensures
        policy_for(method, path) == (PolicyView { permission: None::<Seq<char>>, limit: 40, window_secs: 60, require_auth: false, idempotent: method == "POST"@, feature: "auth"@ }),
{
    reveal_strlit("/openapi.json");
    reveal_strlit("/api/auth/");
    assert(path[1] == 'a') by {
        assert(path.subrange(0, 10)[1] == path[1]);
    }
}

/// Paths outside `/api` and `/internal` get the public guard: no account, 300
/// requests a minute.
pub proof fn law_other_paths_public(method: Seq<char>, path: Seq<char>)
    requires
        path != "/openapi.json"@,
        !has_prefix(path, "/api"@),
        !has_prefix(path, "/internal"@),
    ensures
        policy_for(method, path) == (PolicyView { permission: None::<Seq<char>>, limit: 300, window_secs: 60, require_auth: false, idempotent: false, feature: "public"@ }),
{
    reveal_strlit("/openapi.json");
    reveal_strlit("/api/auth/");
    reveal_strlit("/api/events");
    reveal_strlit("/api/events/health");
    reveal_strlit("/api/cache");
    reveal_strlit("/api/settings/profile");
    reveal_strlit("/api/settings/app");
    reveal_strlit("/api/settings/profile/update");
    reveal_strlit("/api/settings/app/update");
    reveal_strlit("/api/settings/keys");
    reveal_strlit("/api/settings/cometapi-key");
    reveal_strlit("/api/providers/cometapi/models");
    reveal_strlit("/internal/actions/execute");
    reveal_strlit("/api/traces/current");
    reveal_strlit("/api/traces/current/summary");
    reveal_strlit("/api/traces/");
    reveal_strlit("/api/");
    reveal_strlit("/internal");
    reveal_strlit("GET");
    reveal_strlit("DELETE");
    reveal_strlit("POST");
    reveal_strlit("PUT");
    reveal_strlit("PATCH");
    reveal_strlit("/api");
    if has_prefix(path, "/api/auth/"@) {
        assert(path.subrange(0, 4) =~= path.subrange(0, 10).subrange(0, 4));
        assert("/api/auth/"@.subrange(0, 4) =~= "/api"@);
    }
    if has_prefix(path, "/api/traces/"@) {
        assert(path.subrange(0, 4) =~= path.subrange(0, 12).subrange(0, 4));
        assert("/api/traces/"@.subrange(0, 4) =~= "/api"@);
    }
    if has_prefix(path, "/api/"@) {
        assert(path.subrange(0, 4) =~= path.subrange(0, 5).subrange(0, 4));
        assert("/api/"@.subrange(0, 4) =~= "/api"@);
    }
    assert(path != "/api/events"@) by { if path == "/api/events"@ { assert("/api/events"@.subrange(0, 4) =~= "/api"@); } }
    assert(path != "/api/events/health"@) by { if path == "/api/events/health"@ { assert("/api/events/health"@.subrange(0, 4) =~= "/api"@); } }
    assert(path != "/api/cache"@) by { if path == "/api/cache"@ { assert("/api/cache"@.subrange(0, 4) =~= "/api"@); } }
    assert(path != "/api/settings/profile"@) by { if path == "/api/settings/profile"@ { assert("/api/settings/profile"@.subrange(0, 4) =~= "/api"@); } }
    assert(path != "/api/settings/app"@) by { if path == "/api/settings/app"@ { assert("/api/settings/app"@.subrange(0, 4) =~= "/api"@); } }
    assert(path != "/api/settings/profile/update"@) by { if path == "/api/settings/profile/update"@ { assert("/api/settings/profile/update"@.subrange(0, 4) =~= "/api"@); } }
    assert(path != "/api/settings/app/update"@) by { if path == "/api/settings/app/update"@ { assert("/api/settings/app/update"@.subrange(0, 4) =~= "/api"@); } }
    assert(path != "/api/settings/keys"@) by { if path == "/api/settings/keys"@ { assert("/api/settings/keys"@.subrange(0, 4) =~= "/api"@); } }
    assert(path != "/api/settings/cometapi-key"@) by { if path == "/api/settings/cometapi-key"@ { assert("/api/settings/cometapi-key"@.subrange(0, 4) =~= "/api"@); } }
    assert(path != "/api/providers/cometapi/models"@) by { if path == "/api/providers/cometapi/models"@ { assert("/api/providers/cometapi/models"@.subrange(0, 4) =~= "/api"@); } }
    assert(path != "/api/traces/current"@) by { if path == "/api/traces/current"@ { assert("/api/traces/current"@.subrange(0, 4) =~= "/api"@); } }
    assert(path != "/api/traces/current/summary"@) by { if path == "/api/traces/current/summary"@ { assert("/api/traces/current/summary"@.subrange(0, 4) =~= "/api"@); } }
    assert(path != "/internal/actions/execute"@) by { if path == "/internal/actions/execute"@ { assert("/internal/actions/execute"@.subrange(0, 9) =~= "/internal"@); } }
}


/// Routes of one trace node (`/api/traces/<id>...`): editing its output writes
/// traces (idempotent for `PATCH`), replaying it needs `traces:replay` and is
/// idempotent at 60 a minute, and anything else only reads traces.
pub proof fn law_trace_node_routes(method: Seq<char>, path: Seq<char>)
    requires
        has_prefix(path, "/api/traces/"@),
        path != "/api/traces/current"@,
        path != "/api/traces/current/summary"@,
    ensures
        has_suffix(path, "/output"@) ==> policy_for(method, path) == (PolicyView { permission: Some("traces:write"@), limit: 120, window_secs: 60, require_auth: true, idempotent: method == "PATCH"@, feature: "traces"@ }),
        !has_suffix(path, "/output"@) && (has_suffix(path, "/replay"@) || has_suffix(path, "/replay-with"@))
            ==> policy_for(method, path) == (PolicyView { permission: Some("traces:replay"@), limit: 60, window_secs: 60, require_auth: true, idempotent: true, feature: "traces"@ }),
        !has_suffix(path, "/output"@) && !has_suffix(path, "/replay"@) && !has_suffix(path, "/replay-with"@)
            ==> policy_for(method, path) == (PolicyView { permission: Some("traces:read"@), limit: 180, window_secs: 60, require_auth: true, idempotent: false, feature: "traces"@ }),
{
    reveal_strlit("/openapi.json");
    reveal_strlit("/api/auth/");
    reveal_strlit("/api/events");
    reveal_strlit("/api/events/health");
    reveal_strlit("/api/cache");
    reveal_strlit("/api/settings/profile");
    reveal_strlit("/api/settings/app");
    reveal_strlit("/api/settings/profile/update");
    reveal_strlit("/api/settings/app/update");
    reveal_strlit("/api/settings/keys");
    reveal_strlit("/api/settings/cometapi-key");
    reveal_strlit("/api/providers/cometapi/models");
    reveal_strlit("/internal/actions/execute");
    reveal_strlit("/api/traces/current");
    reveal_strlit("/api/traces/current/summary");
    reveal_strlit("/api/traces/");
    reveal_strlit("/output");
    reveal_strlit("/replay");
    reveal_strlit("/replay-with");
    reveal_strlit("PATCH");
    assert(path[1] == 'a' && path[5] == 't') by {
        assert(path.subrange(0, 12)[1] == path[1]);
        assert(path.subrange(0, 12)[5] == path[5]);
    }
    assert(!has_prefix(path, "/api/auth/"@)) by {
        if has_prefix(path, "/api/auth/"@) {
            assert(path.subrange(0, 10)[5] == path[5]);
        }
    }
    assert(path != "/openapi.json"@) by { if path == "/openapi.json"@ { assert(path[1] == "/openapi.json"@[1]); } }
    assert(path != "/api/events"@) by { if path == "/api/events"@ { assert(path[5] == "/api/events"@[5]); } }
    assert(path != "/api/events/health"@) by { if path == "/api/events/health"@ { assert(path[5] == "/api/events/health"@[5]); } }
    assert(path != "/api/cache"@) by { if path == "/api/cache"@ { assert(path[5] == "/api/cache"@[5]); } }
    assert(path != "/api/settings/profile"@) by { if path == "/api/settings/profile"@ { assert(path[5] == "/api/settings/profile"@[5]); } }
    assert(path != "/api/settings/app"@) by { if path == "/api/settings/app"@ { assert(path[5] == "/api/settings/app"@[5]); } }
    assert(path != "/api/settings/profile/update"@) by { if path == "/api/settings/profile/update"@ { assert(path[5] == "/api/settings/profile/update"@[5]); } }
    assert(path != "/api/settings/app/update"@) by { if path == "/api/settings/app/update"@ { assert(path[5] == "/api/settings/app/update"@[5]); } }
    assert(path != "/api/settings/keys"@) by { if path == "/api/settings/keys"@ { assert(path[5] == "/api/settings/keys"@[5]); } }
    assert(path != "/api/settings/cometapi-key"@) by { if path == "/api/settings/cometapi-key"@ { assert(path[5] == "/api/settings/cometapi-key"@[5]); } }
    assert(path != "/api/providers/cometapi/models"@) by { if path == "/api/providers/cometapi/models"@ { assert(path[5] == "/api/providers/cometapi/models"@[5]); } }
    assert(path != "/internal/actions/execute"@) by { if path == "/internal/actions/execute"@ { assert(path[1] == "/internal/actions/execute"@[1]); } }
}

} // verus!
