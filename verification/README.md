# obscura_solverr

A FlareSolverr-compatible solving API (`POST /v1`, `GET /health`) whose
decisions are verified with Verus.

- `src/api.rs` – request and response bodies.
- `src/challenge.rs` – Cloudflare interstitial and clearance-cookie detection.
- `src/session.rs` – the session store: UUID ids, per-session request budget.
- `src/solve.rs` – when a solve stops waiting, and what it reports.
- `src/wire.rs` – HTTP/1.1 request reading (as a state machine) and response heads.
- `src/http.rs` – server state and command dispatch.
- `src/text.rs` – character-level helpers (white space, search, decimal numbers).
- `src/laws.rs` – properties spanning several calls.
- `app/` – sockets, the browser engine, JSON and the environment.
