//! The decisions of a low-latency audio relay: who may publish or subscribe under a key, which
//! UDP endpoint speaks for a session, where an audio packet goes, and what a status query sees.
//! Sockets, timers and JSON live in the program around this library.

pub mod big_endian;
pub mod clock;
pub mod config;
pub mod datagrams;
pub mod endpoint;
pub mod error;
pub mod framing;
pub mod laws;
pub mod load_test;
pub mod model;
pub mod operations;
pub mod protocol;
pub mod relay;
pub mod server;
pub mod state;
pub mod streams;
pub mod text;
pub mod traffic;
