//! The rules of a web daemon that serves text adventures: which games a
//! directory offers, how they are listed and looked up, how one running game
//! is driven over a websocket, and how its pipes are relayed and shut down.
//!
//! Files, sockets, processes and threads are the caller's. The caller hands
//! this crate what it read and carries out what it is told.
#![allow(unused_imports)]

pub mod actor;
pub mod buffer;
pub mod catalog;
pub mod cli;
pub mod failure;
pub mod json;
pub mod loader;
pub mod paths;
pub mod server;
pub mod streams;
pub mod teardown;
pub mod text;
