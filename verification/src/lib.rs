//! A chat relay in which the occupants of a room decide who may join it.
//!
//! The crate holds the two state machines of the relay and nothing that
//! touches a socket: [`chatsession::ChatSession`] is the per-connection
//! machine, [`chatserver::ChatServer`] the registry of rooms. Each handler
//! takes an event and returns the messages that its host has to deliver.

pub mod announce;
pub mod chatserver;
pub mod chatsession;
pub mod consistency;
pub mod ident;
pub mod liveness;
