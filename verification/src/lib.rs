//! The connection and state core of a real-time multiplayer server: a registry
//! of connections and worlds with admission control, worlds that own entities
//! and players, and the decoding and dispatch of the binary packet protocol.

pub mod buffer;
pub mod client;
pub mod entity;
pub mod packet;
pub mod packet_handlers;
pub mod player;
pub mod server;
pub mod types;
pub mod world;
pub mod world_manager;
