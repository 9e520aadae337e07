# tether

The decision logic of the Tether local proxy and its Linux desktop shell, written
in Verus with its behaviour stated in contracts and proved.

- `src/` is the verified library: route policies, feature switches, the rate
  limiter, the idempotency store, the API guard as a state machine, bearer tokens
  and OAuth state, readiness, trace replay and the downstream (stale) set, request
  capture, the workspace snapshot parsers, and the desktop shell's paths and proxy
  control decisions. Its only trusted items are the calls into `sha2`, `http`
  (through `axum`) and `String::push`, each with its contract beside it.
- `app/` is ordinary Rust around it: the axum middleware and routes, SQLite and
  Postgres access, HTTP clients, processes, files and git.
- `tests/` runs the library on concrete values.
