//! A request/response streaming gateway that coordinates a network-facing
//! client with an out-of-process text-generation worker through a
//! filesystem-based handoff queue.
//!
//! The gateway owns three concerns, each with a verified core:
//!
//! - slot (nonce) allocation: picking the next request index not already
//!   occupied by a request record;
//! - request submission: serializing the prompt pair into the request record
//!   that is written once per slot;
//! - incremental streaming: the offset-tracked polling state machine that
//!   reads a growing output file back to the client, including truncation
//!   and timeout handling.
//!
//! All filesystem probes, reads, writes and sleeps happen outside this
//! library; the driver hands each observation to the state machine here and
//! performs the action it decides.

pub mod config;
pub mod decimal;
pub mod laws;
pub mod request;
pub mod server;
pub mod stream;
pub mod utf8;
