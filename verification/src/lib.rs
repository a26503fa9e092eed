//! An in-process publish/subscribe broker: named topics, each a FIFO queue of
//! text payloads, driven by commands that connections parse off the wire.
//!
//! The library does no I/O. `broker` owns the topics (`store`, over `queue`)
//! and applies commands (`command`) tick by tick; `wire` reads a command off a
//! chunk of bytes; `connection` and `listener` say what a connection handler
//! and the listener do next; `fifo` states what holds over whole runs of
//! commands. `config`, `gateway` and `telemetry` read the configurations of
//! the broker and of its two clients off TOML documents (`document`), and
//! `host` is the client side of the wire. `text` and `number` are the text
//! handling that the rest is built on.

pub mod broker;
pub mod command;
pub mod config;
pub mod connection;
pub mod document;
pub mod fifo;
pub mod gateway;
pub mod host;
pub mod listener;
pub mod number;
pub mod queue;
pub mod store;
pub mod telemetry;
pub mod text;
pub mod wire;
