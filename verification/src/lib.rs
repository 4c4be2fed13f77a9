//! A minimal networked key-value store.
//!
//! A node keeps a map from string keys to string values in memory and
//! answers commands that clients send over a stream. This crate holds all
//! of that but the stream itself:
//!
//! - `common`: commands, responses, errors and the rule for keys;
//! - `wire`: the byte form of commands and responses;
//! - `framing`: how one message is told from the next on a stream;
//! - `store`: the map;
//! - `node`: the rule by which commands are answered;
//! - `connection`: one connection of a node, as a state machine;
//! - `client`: the client's side of an exchange.
//!
//! Reading, writing and locking are left to the program around the crate.

pub mod client;
pub mod common;
pub mod connection;
pub mod framing;
pub mod node;
pub mod store;
pub mod wire;
