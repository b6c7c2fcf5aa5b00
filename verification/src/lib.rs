//! A concurrent TCP port scanner's core: bounded-concurrency scan
//! orchestration and heuristic service classification.
//!
//! The library is pure logic: it decides which ports to probe, how many
//! probes may be in flight at once, and how to classify an open port from
//! its number and from the text an active probe got back.  All network
//! I/O (connecting, writing probe requests, reading responses) is done by
//! the surrounding application, which feeds the results back in as plain
//! values.

pub mod error;
pub mod scanner;
pub mod service;
pub mod text;
