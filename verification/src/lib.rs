//! A FlareSolverr-compatible solving API: the request and response bodies,
//! Cloudflare challenge recognition, the session store, the decisions of a
//! solve, the HTTP framing, and command dispatch.
pub mod api;
pub mod challenge;
pub mod http;
pub mod laws;
pub mod session;
pub mod solve;
pub mod text;
pub mod wire;

pub use api::{RequestBody, ResponseBody, Solution};
pub use http::{ServerConfig, ServerState};
