//! Core of a lightweight meta-scheduler: singleton-bootstrap and
//! service-discovery records for a server, the in-memory job/worker state
//! machine driven by lifecycle events, and the client request/response
//! protocol built on framed messages.
//!
//! Filesystem, network and clock access live outside this crate; every
//! function here works on plain values and is verified.

pub mod client;
pub mod codec;
pub mod datetime;
pub mod error;
pub mod handler;
pub mod messages;
pub mod record;
pub mod rundir;
pub mod state;
pub mod wire;
