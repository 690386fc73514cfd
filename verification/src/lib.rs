//! A small terminal chat: clients send their name and message in fixed-size
//! frames; a relay server shows and re-broadcasts them, a receiver stores
//! them, and clients show the chat history kept in a local database.
//!
//! This crate holds the logic of that chat: the wire frames, the text rules,
//! the database statements, the client and server decisions and the model of
//! the terminal screen. Sockets, the database connection, JSON encoding and
//! drawing stand outside it.

pub mod client;
pub mod db;
pub mod frame;
pub mod message;
pub mod screen;
pub mod server;
pub mod text;
