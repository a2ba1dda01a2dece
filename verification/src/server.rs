use vstd::prelude::*;

use crate::client::Client;
use crate::world::World;
use crate::world_manager::{WorldManager, WorldManagerConfig};

verus! {

/// How much the server logs, from nothing to everything.
#[derive(Clone, Copy, Debug, PartialEq, Eq, Structural)]
pub enum LogLevel {
    Off,
    Error,
    Warn,
    Info,
    Debug,
    Trace,
}

/// The settings of a server, fixed when it starts.
#[derive(Clone, Debug)]
pub struct ServerConfig {
    pub log_level: LogLevel,
    /// The address to listen on, as host and port.
    pub address: String,
    pub world_manager_config: WorldManagerConfig,
}

impl ServerConfig {
    /// The default settings: debug logging, the loopback address on port
    /// 9000, and the registry's default settings.
    pub fn default() -> (config: ServerConfig)
        ensures
            config.log_level == LogLevel::Debug,
            config.address@ == "127.0.0.1:9000"@,
            config.world_manager_config.max_client_count == 100,
    {
        ServerConfig {
            log_level: LogLevel::Debug,
            address: "127.0.0.1:9000".to_owned(),
            world_manager_config: WorldManagerConfig::default(),
        }
    }
}

/// A server: its settings and the registry of its connections and worlds.
/// Listening, accepting and the per-connection tasks belong to whoever runs
/// it.
pub struct Server {
    pub config: ServerConfig,
    pub world_manager: WorldManager,
}

impl Server {
    /// A server with the default settings and an empty registry.
    pub fn default() -> (server: Server)
        ensures
            server.world_manager.wf(),
            server.config.log_level == LogLevel::Debug,
            server.config.address@ == "127.0.0.1:9000"@,
            server.config.world_manager_config.max_client_count == 100,
            server.world_manager.config == server.config.world_manager_config,
            server.world_manager@.clients == Map::<usize, Client>::empty(),
            server.world_manager@.worlds == Map::<usize, World>::empty(),
            server.world_manager@.next_client_id == 0,
            server.world_manager@.next_world_id == 0,
    {
        Self::new(ServerConfig::default())
    }

    /// A server with the given settings and an empty registry that takes
    /// its own settings from them.
    pub fn new(config: ServerConfig) -> (server: Server)
        ensures
            server.world_manager.wf(),
            server.config == config,
            server.world_manager.config == config.world_manager_config,
            server.world_manager@.clients == Map::<usize, Client>::empty(),
            server.world_manager@.worlds == Map::<usize, World>::empty(),
            server.world_manager@.next_client_id == 0,
            server.world_manager@.next_world_id == 0,
    {
        let world_manager = WorldManager::new(config.world_manager_config);
        Server { config, world_manager }
    }
}

} // verus!
