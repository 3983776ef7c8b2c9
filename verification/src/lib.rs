//! A diagnostic DNS responder core: for a configured base domain, specific
//! subdomains ("virtual zones") return synthetic answers describing the
//! requester or the server state, while the base domain itself answers
//! authoritative NS/SOA queries.
//!
//! The crate holds the request router and the response-data synthesizers,
//! including the decoder for the EDNS Client Subnet option. Message parsing,
//! transport and process plumbing are left to the surrounding server.
//!
//! The core is kept pure: the clock reading the timestamp zones report is a
//! parameter of [`router::route`], and the query counter is an explicit
//! value the caller owns and shares. The counter advances exactly once per
//! successfully routed query, and the counter zone reports the value from
//! before its own increment — the number of queries routed before it.

pub mod config;
pub mod counter;
pub mod ecs;
pub mod name;
pub mod records;
pub mod request;
pub mod router;
pub mod synth;
pub mod text;
