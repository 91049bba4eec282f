//! Core of a secure request/reply messaging runtime.
//!
//! The crate holds the decisions of the runtime and none of its input or
//! output: the envelope model and its wire format, session identifiers, the
//! ticket ledger and the per-request state machine of the client, and the
//! receive/send state machine of a server worker. Cryptographic primitives and
//! the message transport are collaborators: their outcomes are handed in as
//! plain values.

pub mod base58;
pub mod bytes;
pub mod codec;
pub mod crypto;
pub mod errors;
pub mod message;
pub mod metrics;
pub mod testing;
pub mod text;
pub mod ulid;
pub mod rpc;
