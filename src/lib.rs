//! A reverse tunnel: a public gateway relays client connections to a server
//! behind a NAT, over an authenticated control channel.
//!
//! This crate holds the protocol logic of both endpoints: the port manifest
//! encoding, the session cipher and its nonce counter, the handshake messages,
//! the rendezvous tickets and the configuration rules. Sockets, threads and
//! files are left to the caller.

mod bytes;
pub mod common;
pub mod config;
pub mod crypto;
pub mod error;
pub mod gateway;
pub mod server;
