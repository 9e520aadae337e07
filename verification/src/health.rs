//! Readiness: the health of the trace database and the auth database, and what
//! the readiness probe answers.
use vstd::prelude::*;

use crate::text::str_eq;

verus! {

/// The result of one readiness check.
pub struct CheckStatus {
    pub status: &'static str,
    pub error: Option<String>,
    pub healthy: bool,
}

/// A readiness check as values.
pub struct CheckView {
    pub status: Seq<char>,
    pub error: Option<Seq<char>>,
    pub healthy: bool,
}

impl View for CheckStatus {
    type V = CheckView;

    open spec fn view(&self) -> CheckView {
        CheckView {
            status: self.status@,
            error: match self.error {
                Some(e) => Some(e@),
                None => None,
            },
            healthy: self.healthy,
        }
    }
}

pub open spec fn check(status: Seq<char>, error: Option<Seq<char>>, healthy: bool) -> CheckView {
    CheckView { status, error, healthy }
}

/// Whether the `TETHER_REQUIRE_AUTH_DB` setting asks for the auth database:
/// `"1"`, `"true"` or `"on"`.
pub open spec fn requires_auth_db(setting: Option<Seq<char>>) -> bool {
    match setting {
        Some(v) => v == "1"@ || v == "true"@ || v == "on"@,
        None => false,
    }
}

/// Whether the readiness probe needs the auth database.
pub fn require_auth_db(setting: Option<&str>) -> (r: bool)
    ensures
        r == requires_auth_db(
            match setting {
                Some(v) => Some(v@),
                None => None,
            },
        ),
{
    match setting {
        Some(v) => str_eq(v, "1") || str_eq(v, "true") || str_eq(v, "on"),
        None => false,
    }
}

/// The trace database check from its probe: the worker's failure, the query's
/// failure, or the value that `SELECT 1` gave.
pub open spec fn sqlite_check(probe: Result<Result<i64, Seq<char>>, Seq<char>>) -> CheckView {
    match probe {
        Ok(Ok(v)) => if v == 1 {
            check("ok"@, None, true)
        } else {
            check("unhealthy"@, Some("sqlite readiness query returned unexpected value"@), false)
        },
        Ok(Err(e)) => check("unhealthy"@, Some(e), false),
        Err(e) => check("unhealthy"@, Some(e), false),
    }
}

/// The trace database check.
pub fn validate_sqlite(probe: Result<Result<i64, String>, String>) -> (r: CheckStatus)
    ensures
        r@ == sqlite_check(
            match probe {
                Ok(Ok(v)) => Ok(Ok(v)),
                Ok(Err(e)) => Ok(Err(e@)),
                Err(e) => Err(e@),
            },
        ),
{
    match probe {
        Ok(Ok(v)) => {
            if v == 1 {
                CheckStatus { status: "ok", error: None, healthy: true }
            } else {
                CheckStatus {
                    status: "unhealthy",
                    error: Some(String::from_str("sqlite readiness query returned unexpected value")),
                    healthy: false,
                }
            }
        },
        Ok(Err(e)) => CheckStatus { status: "unhealthy", error: Some(e), healthy: false },
        Err(e) => CheckStatus { status: "unhealthy", error: Some(e), healthy: false },
    }
}

/// The auth database check: `None` when no auth database is configured, else
/// what `SELECT 1` gave.
pub open spec fn auth_check(probe: Option<Result<i32, Seq<char>>>, require_auth_db: bool) -> CheckView {
    match probe {
        None => if require_auth_db {
            check("unhealthy"@, Some("DATABASE_URL is not configured"@), false)
        } else {
            check("disabled"@, Some("DATABASE_URL is not configured"@), true)
        },
        Some(Ok(v)) => if v == 1 {
            check("ok"@, None, true)
        } else {
            check("unhealthy"@, Some("query returned false"@), false)
        },
        Some(Err(e)) => check("unhealthy"@, Some(e), false),
    }
}

/// The auth database check.
pub fn validate_auth(probe: Option<Result<i32, String>>, require_auth_db: bool) -> (r: CheckStatus)
    ensures
        r@ == auth_check(
            match probe {
                None => None,
                Some(Ok(v)) => Some(Ok(v)),
                Some(Err(e)) => Some(Err(e@)),
            },
            require_auth_db,
        ),
{
    match probe {
        None => {
            if require_auth_db {
                CheckStatus {
                    status: "unhealthy",
                    error: Some(String::from_str("DATABASE_URL is not configured")),
                    healthy: false,
                }
            } else {
                CheckStatus {
                    status: "disabled",
                    error: Some(String::from_str("DATABASE_URL is not configured")),
                    healthy: true,
                }
            }
        },
        Some(Ok(v)) => {
            if v == 1 {
                CheckStatus { status: "ok", error: None, healthy: true }
            } else {
                CheckStatus {
                    status: "unhealthy",
                    error: Some(String::from_str("query returned false")),
                    healthy: false,
                }
            }
        },
        Some(Err(e)) => CheckStatus { status: "unhealthy", error: Some(e), healthy: false },
    }
}

/// What the readiness probe answers.
pub struct Readiness {
    pub ready: bool,
    pub status: &'static str,
    pub http_status: u16,
}

/// The readiness answer: ready when both checks are healthy.
pub fn readiness(sqlite: &CheckStatus, auth: &CheckStatus) -> (r: Readiness)
    ensures
        r.ready == (sqlite.healthy && auth.healthy),
        r.status@ == (if r.ready {
            "ok"@
        } else {
            "degraded"@
        }),
        r.http_status == (if r.ready {
            200u16
        } else {
            503u16
        }),
{
    let ready = sqlite.healthy && auth.healthy;
    if ready {
        Readiness { ready, status: "ok", http_status: 200 }
    } else {
        Readiness { ready, status: "degraded", http_status: 503 }
    }
}

/// Without an auth database the service is still ready unless the setting asks
/// for one; a configured auth database must answer its probe.
pub proof fn law_auth_optional_unless_required(probe: Option<Result<i32, Seq<char>>>, required: bool)
    ensures
        probe is None ==> (auth_check(probe, required).healthy == !required),
        probe is Some ==> (auth_check(probe, required).healthy <==> probe == Some(
            Ok::<i32, Seq<char>>(1),
        )),
{
}

/// The trace database is healthy exactly when `SELECT 1` answered 1; any failure
/// of the worker or of the query, or another value, is unhealthy, and a failure
/// is reported with its message.
pub proof fn law_sqlite_healthy_only_on_one(probe: Result<Result<i64, Seq<char>>, Seq<char>>)
    ensures
        sqlite_check(probe).healthy <==> probe == Ok::<Result<i64, Seq<char>>, Seq<char>>(
            Ok(1),
        ),
        sqlite_check(probe).healthy ==> sqlite_check(probe).status == "ok"@ && sqlite_check(
            probe,
        ).error is None,
        !sqlite_check(probe).healthy ==> sqlite_check(probe).status == "unhealthy"@ && sqlite_check(
            probe,
        ).error is Some,
        probe matches Ok(Err(e)) ==> sqlite_check(probe).error == Some(e),
        probe matches Err(e) ==> sqlite_check(probe).error == Some(e),
{
}

} // verus!
