//! Protocol and session core of a terminal chat: the compatibility
//! handshake, the packet codec, the per-connection state machines of server
//! and client, the broadcast fan-out and the client's local view of messages.

pub mod app;
pub mod bus;
pub mod client;
pub mod client_handler;
pub mod clock;
pub mod compat;
pub mod ident;
pub mod input;
pub mod method;
pub mod registry;
pub mod server;
pub mod server_handler;
pub mod store;
pub mod text;
pub mod wire;

pub use wire::{FromPacketBytes, IntoPacketBytes, MAX_MEMBERS, MAX_PACKET_BYTES};
