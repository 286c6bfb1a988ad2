//! Error taxonomy of the replication client.
//!
//! `Parse` reports a malformed replication message, optionally carrying
//! a position or column index as context; the other kinds mirror the
//! stages of a session: configuration, connecting, protocol-level
//! exchanges, and buffers handed over by the transport.

use vstd::prelude::*;

verus! {

/// An error surfaced by the replication client.
#[derive(Debug)]
pub enum ReplicationError {
    /// Invalid configuration, rejected before any connection is made.
    Config { message: String },
    /// The connection to the server could not be established.
    Connection { message: String },
    /// An unexpected reply or frame at the protocol level.
    Protocol { message: String },
    /// A malformed replication message; `context` optionally carries a
    /// buffer position, column index, or offending byte.
    Parse { message: String, context: Option<u64> },
    /// The transport handed over an unusable buffer.
    Buffer { message: String },
}

impl ReplicationError {
    /// A configuration error with the given description.
    pub fn config(message: &str) -> (r: Self)
        ensures
            r matches ReplicationError::Config { message: m } && m@ == message@,
    {
        ReplicationError::Config { message: message.to_owned() }
    }

    /// A connection error with the given description.
    pub fn connection(message: &str) -> (r: Self)
        ensures
            r matches ReplicationError::Connection { message: m } && m@ == message@,
    {
        ReplicationError::Connection { message: message.to_owned() }
    }

    /// A protocol error with the given description.
    pub fn protocol(message: &str) -> (r: Self)
        ensures
            r matches ReplicationError::Protocol { message: m } && m@ == message@,
    {
        ReplicationError::Protocol { message: message.to_owned() }
    }

    /// A parse error with the given description and no context.
    pub fn parse(message: &str) -> (r: Self)
        ensures
            r matches ReplicationError::Parse { message: m, context: c } && m@ == message@ && c
                is None,
    {
        ReplicationError::Parse { message: message.to_owned(), context: None }
    }

    /// A parse error carrying a position, column index, or byte as context.
    pub fn parse_with_context(message: &str, context: u64) -> (r: Self)
        ensures
            r matches ReplicationError::Parse { message: m, context: c } && m@ == message@ && c
                == Some(context),
    {
        ReplicationError::Parse { message: message.to_owned(), context: Some(context) }
    }

    /// A buffer error with the given description.
    pub fn buffer(message: &str) -> (r: Self)
        ensures
            r matches ReplicationError::Buffer { message: m } && m@ == message@,
    {
        ReplicationError::Buffer { message: message.to_owned() }
    }

    /// True when this is a parse error.
    pub fn is_parse(&self) -> (r: bool)
        ensures
            r == (self is Parse),
    {
        match self {
            ReplicationError::Parse { .. } => true,
            _ => false,
        }
    }

    /// The description carried by the error, whatever its kind.
    pub fn message(&self) -> (r: &String)
        ensures
            r@ == self.spec_message(),
    {
        match self {
            ReplicationError::Config { message } => message,
            ReplicationError::Connection { message } => message,
            ReplicationError::Protocol { message } => message,
            ReplicationError::Parse { message, .. } => message,
            ReplicationError::Buffer { message } => message,
        }
    }

    /// The description carried by the error.
    pub open spec fn spec_message(&self) -> Seq<char> {
        match self {
            ReplicationError::Config { message } => message@,
            ReplicationError::Connection { message } => message@,
            ReplicationError::Protocol { message } => message@,
            ReplicationError::Parse { message, .. } => message@,
            ReplicationError::Buffer { message } => message@,
        }
    }
}

} // verus!
