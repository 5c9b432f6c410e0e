//! Core of a relay for signed events: the event and subscription models,
//! the store and the writer that feeds it, the state of a client
//! connection, and what the relay does with everything that reaches a
//! connection or arrives as a plain HTTP request.
//!
//! The functions here take and return plain values. A process around
//! them owns the sockets, the tasks and the timers: it hands each frame,
//! query result and published event to [`server::nostr_server`] and
//! carries out the actions it returns.
pub mod authentication;
pub mod close;
pub mod config;
pub mod conn;
pub mod crypto;
pub mod db;
pub mod error;
pub mod event;
pub mod json;
pub mod notice;
pub mod server;
pub mod subscription;
pub mod text;
pub mod web;
