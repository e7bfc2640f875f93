//! A request-forwarding gateway core: a sliding-window rate limiter, the
//! admission pipeline that composes it with health-check bypass and
//! fail-open policy, and the forwarding proxy's request/response shaping.
//!
//! All persistent rate-limit state lives in a shared external store; this
//! crate holds the algorithm and the per-request decisions, while a thin
//! host binary does the network I/O around it.

pub mod limiter;
pub mod numfmt;
pub mod pipeline;
pub mod proxy;
