//! Verified core of a rate-limiting reverse proxy.
//!
//! The crate holds the logic of the proxy: resolving and validating its
//! configuration, minting access tokens, the fixed-window rate-limit
//! counter with its admission decisions, and the rewriting of an inbound
//! request into the outbound upstream request (and of the upstream
//! response back to the client). The surrounding process — HTTP serving,
//! the shared counter store, the outbound HTTP client — performs the
//! actions these functions decide on.

pub mod config;
pub mod forward;
pub mod limiter;
pub mod text;
pub mod token;
