//! Core of a terminal XMPP client: an event bus that delivers semantic
//! events to registered protocol components in order, a command registry
//! that parses user input lines into typed commands, a roster component
//! that tracks per-account contacts, and a bookmarks component that
//! negotiates one of two wire encodings for conference bookmarks.
//!
//! The transport is a collaborator: the library consumes already-decoded
//! stanza values and produces stanza values to send, never raw bytes.

pub mod bus;
pub mod command;
pub mod contact;
pub mod event;
pub mod jid;
pub mod mods;
pub mod plugins;
pub mod stanza;
