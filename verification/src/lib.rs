//! A room-based message relay.
//!
//! Clients hold a connection open, join named rooms and send short text
//! messages that are handed to every member of the room they are meant for.
//! This library is the part of such a relay that decides: the registry of live
//! connections and rooms, the protocol of the frames, the dispatcher that
//! applies a frame to the registry, and the life of a connection. Reading from
//! and writing to the network is left to the program around it.
//!
//! - [`model`]: the registry as mathematics, and the laws that hold of it.
//! - [`registry`]: the executable registry, [`registry::RoomManager`].
//! - [`protocol`]: the inbound and outbound frames.
//! - [`dispatch`]: what one inbound frame does.
//! - [`connection`]: the life of one connection.
//! - [`user`], [`rooms`], [`error`]: what the account and room catalog
//!   endpoints answer.
//! - [`ident`], [`outbox`]: connection identifiers and outbound channels.
//! - [`tables`]: how the registry is stored.

mod assoc;
pub mod connection;
pub mod dispatch;
pub mod error;
pub mod ident;
pub mod model;
pub mod outbox;
pub mod protocol;
pub mod registry;
pub mod rooms;
pub mod tables;
pub mod user;
