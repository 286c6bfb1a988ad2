//! A verified client library for PostgreSQL's logical replication protocol.
//!
//! The crate decodes the binary `pgoutput` message formats (protocol
//! version 2, including streamed transactions) and drives the session
//! bookkeeping of a replication client: LSN watermarks, the relation
//! cache, stream state, and the standby-status feedback frames sent back
//! to the server.  All parsing and state transitions are specified with
//! `requires`/`ensures` contracts and verified; the process entry point,
//! logging, and the libpq transport live outside the library.

pub mod buffer;
pub mod engine;
pub mod errors;
pub mod parser;
pub mod pgtime;
pub mod types;
pub mod wire;
