//! The rules of a Codex egress relay.
//!
//! The relay stands between a client and one configured upstream. It gives every request the
//! identity headers of a Codex CLI turn, sends it on, and passes the reply back. This crate holds
//! what it decides on the way: its configuration, the identity of a turn, the headers of requests
//! and replies, and the course of a request. The program around it does the reading and sending.

pub mod config;
pub mod fresh;
pub mod headers;
pub mod identity;
pub mod json;
pub mod laws;
pub mod proxy;
pub mod text;
pub mod wire;
