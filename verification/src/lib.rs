//! A verified access layer over a shared user-id → reason store.
//!
//! The store maps a numeric user id to a free-text reason. Two front-ends
//! share it: a chat-bot command interface, whose mutating command is held
//! to a whitelist of user ids, and an HTTP API, held to a shared secret
//! credential. This crate holds the shared core — key encoding, the store
//! wrapper, authorization, and the command and header decisions — with its
//! behaviour stated in contracts; the network front-ends themselves stay
//! outside.

pub mod access;
pub mod api;
pub mod bot;
pub mod keys;
pub mod store;
