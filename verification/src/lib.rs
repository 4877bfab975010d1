//! Core of a bidirectional TCP-over-HTTP tunnel.
//!
//! A client's raw TCP connection enters at an entry node, is carried through
//! streaming HTTP request and response bodies, and leaves at an exit node as
//! a TCP connection to a configured backend.  This crate holds the verified
//! core of both nodes: session identity and its wire codecs, the exit node's
//! session registry, the entry node's per-connection protocol, and the model
//! of the chunked byte streams that carry the payload.  The sockets, the HTTP
//! client and server, and the task runtime live outside the crate and drive
//! these functions.

pub mod adapter;
pub mod connectionmanager;
pub mod entry;
pub mod error;
pub mod exit;
pub mod id;
pub mod registry;
pub mod url;
