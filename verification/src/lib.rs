//! Verified request policy, caching and workspace logic of the Tether local proxy.
pub mod auth;
pub mod capture;
pub mod desktop;
pub mod digest;
pub mod flags;
pub mod guard;
pub mod headers;
pub mod health;
pub mod http_syntax;
pub mod idempotency;
pub mod rate_limit;
pub mod replay;
pub mod routing;
pub mod store;
pub mod text;
pub mod trace_store;
pub mod workspace;
