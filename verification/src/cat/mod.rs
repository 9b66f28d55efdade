//! The radio's command channel.
pub mod client;
pub mod commands;
pub mod discover;
pub mod error;
pub mod parse;
pub mod poll;
pub mod responder;
pub mod rigctld;
pub mod serial;
