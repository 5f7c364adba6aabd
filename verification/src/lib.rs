//! Client/agent core for a remote-shell service: the outer stream framing,
//! the chunked request/response wire protocol, reassembly, routing, and the
//! connection bookkeeping (history replay, keepalive), all with verified
//! contracts. Process, network and terminal plumbing lives outside this crate.

pub mod args;
pub mod commands;
pub mod compress;
pub mod connect;
pub mod constants;
pub mod message;
pub mod util;
