//! Verified core of a CORS misconfiguration probe.
//!
//! The library derives a fixed table of crafted `Origin` values from a target
//! host, merges request headers with a defined precedence, classifies the
//! server's `Access-Control-Allow-Origin` / `Access-Control-Allow-Credentials`
//! response headers, and drives the per-strategy scan as a state machine.
//! Network transport, argument handling and printing live outside the library.

pub mod classify;
pub mod strategies;
pub mod text;
pub mod headers;
pub mod errors;
pub mod target;
pub mod config;
pub mod scan;
