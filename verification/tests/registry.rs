use world_server::client::{Client, ClientState};
use world_server::world::World;
use world_server::world_manager::{WorldError, WorldManager, WorldManagerConfig};

fn manager_with_room_for(max_client_count: usize) -> WorldManager {
    WorldManager::new(WorldManagerConfig { max_client_count })
}

#[test]
fn default_config_has_room_for_one_hundred() {
    assert_eq!(WorldManagerConfig::default().max_client_count, 100);
    let manager = WorldManager::default();
    assert_eq!(manager.config.max_client_count, 100);
    assert_eq!(manager.next_client_id, 0);
    assert_eq!(manager.next_world_id, 0);
    assert!(manager.clients.is_empty());
    assert!(manager.worlds.is_empty());
}

#[test]
fn admission_stops_at_capacity_and_resumes_after_disconnect() {
    let mut manager = manager_with_room_for(2);
    assert_eq!(manager.try_connect_client(Client::new()), Ok(0));
    assert_eq!(manager.try_connect_client(Client::new()), Ok(1));
    assert_eq!(manager.try_connect_client(Client::new()), Err(WorldError::TooManyClients));
    assert_eq!(manager.clients.len(), 2);
    assert_eq!(manager.next_client_id, 2);

    assert!(manager.disconnect_client(0));
    assert_eq!(manager.clients.len(), 1);
    assert_eq!(manager.try_connect_client(Client::new()), Ok(2));
    assert_eq!(manager.clients.len(), 2);
    assert!(manager.clients.contains_key(&1));
    assert!(manager.clients.contains_key(&2));
    assert!(!manager.clients.contains_key(&0));
}

#[test]
fn registry_never_exceeds_capacity() {
    let mut manager = manager_with_room_for(3);
    let mut admitted: Vec<usize> = Vec::new();
    for _ in 0..10 {
        match manager.try_connect_client(Client::new()) {
            Ok(id) => admitted.push(id),
            Err(e) => assert_eq!(e, WorldError::TooManyClients),
        }
        assert!(manager.clients.len() <= 3);
    }
    assert_eq!(admitted, vec![0, 1, 2]);
}

#[test]
fn zero_capacity_admits_nobody() {
    let mut manager = manager_with_room_for(0);
    assert_eq!(manager.try_connect_client(Client::new()), Err(WorldError::TooManyClients));
    assert_eq!(manager.next_client_id, 0);
    assert!(manager.clients.is_empty());
}

#[test]
fn admitted_client_is_active_under_its_id() {
    let mut manager = manager_with_room_for(5);
    assert_eq!(manager.try_connect_client(Client::new()), Ok(0));
    let given = Client { id: 77, state: ClientState::Connecting, player: Some(4), world: Some(9) };
    assert_eq!(manager.try_connect_client(given), Ok(1));
    let stored = manager.clients.get(&1).copied();
    assert_eq!(
        stored,
        Some(Client { id: 1, state: ClientState::Active, player: Some(4), world: Some(9) })
    );
}

#[test]
fn client_ids_are_not_reused() {
    let mut manager = manager_with_room_for(1);
    assert_eq!(manager.try_connect_client(Client::new()), Ok(0));
    assert!(manager.disconnect_client(0));
    assert_eq!(manager.try_connect_client(Client::new()), Ok(1));
    assert!(manager.disconnect_client(1));
    assert_eq!(manager.try_connect_client(Client::new()), Ok(2));
}

#[test]
fn disconnecting_an_unknown_client_changes_nothing() {
    let mut manager = manager_with_room_for(2);
    assert!(!manager.disconnect_client(0));
    assert_eq!(manager.try_connect_client(Client::new()), Ok(0));
    assert!(!manager.disconnect_client(5));
    assert_eq!(manager.clients.len(), 1);
    assert!(manager.disconnect_client(0));
    assert!(!manager.disconnect_client(0));
    assert_eq!(manager.next_client_id, 1);
}

#[test]
fn world_ids_are_not_reused() {
    let mut manager = WorldManager::default();
    assert_eq!(manager.add_world(World::new()), 0);
    assert!(manager.remove_world(0));
    assert_eq!(manager.add_world(World::new()), 1);
    assert_eq!(manager.add_world(World::new()), 2);
    assert_eq!(manager.worlds.get(&2).map(|w| w.id), Some(2));
    assert_eq!(manager.worlds.len(), 2);
}

#[test]
fn removing_an_unknown_world_changes_nothing() {
    let mut manager = WorldManager::default();
    assert!(!manager.remove_world(0));
    assert_eq!(manager.add_world(World::new()), 0);
    assert!(!manager.remove_world(3));
    assert_eq!(manager.worlds.len(), 1);
    assert!(manager.remove_world(0));
    assert!(!manager.remove_world(0));
    assert_eq!(manager.next_world_id, 1);
}

#[test]
fn added_world_keeps_its_content() {
    let mut manager = WorldManager::default();
    let mut world = World::new();
    assert_eq!(world.create_entity(), 0);
    assert_eq!(world.add_player(12), Some(1));
    assert_eq!(manager.add_world(World::new()), 0);
    assert_eq!(manager.add_world(world), 1);
    let stored = manager.worlds.get(&1).unwrap();
    assert_eq!(stored.id, 1);
    assert_eq!(stored.entities.len(), 2);
    assert_eq!(stored.players.get(&1).map(|p| p.client_id), Some(12));
    assert_eq!(stored.next_free_entity_id, 2);
}

#[test]
fn world_error_text() {
    assert_eq!(WorldError::TooManyClients.message(), "TooManyClients");
}

#[test]
fn disconnect_cleans_up_player_and_registration() {
    let mut manager = manager_with_room_for(4);
    let mut world = World::new();
    assert_eq!(manager.try_connect_client(Client::new()), Ok(0));
    assert_eq!(manager.try_connect_client(Client::new()), Ok(1));
    assert_eq!(world.add_player(0), Some(0));
    assert_eq!(world.add_player(1), Some(1));
    assert_eq!(manager.add_world(world), 0);

    let mut client = Client { id: 1, state: ClientState::Closing, player: Some(1), world: Some(0) };
    assert!(client.disconnect(&mut manager));
    assert_eq!(client, Client { id: 1, state: ClientState::Closed, player: None, world: None });
    assert!(!manager.clients.contains_key(&1));
    assert!(manager.clients.contains_key(&0));
    let stored = manager.worlds.get(&0).unwrap();
    assert!(!stored.players.contains_key(&1));
    assert!(stored.players.contains_key(&0));
    assert!(stored.entities.contains_key(&1));
    assert!(!stored.player_of_client.contains_key(&1));

    assert!(!client.disconnect(&mut manager));
    assert_eq!(manager.clients.len(), 1);
    assert_eq!(manager.worlds.len(), 1);
}

#[test]
fn disconnect_without_world_only_unregisters() {
    let mut manager = manager_with_room_for(4);
    assert_eq!(manager.add_world(World::new()), 0);
    assert_eq!(manager.try_connect_client(Client::new()), Ok(0));
    let mut client = Client { id: 0, state: ClientState::Active, player: None, world: None };
    assert!(client.disconnect(&mut manager));
    assert_eq!(client.state, ClientState::Closed);
    assert!(manager.clients.is_empty());
    assert_eq!(manager.worlds.len(), 1);

    let mut stranger = Client { id: 9, state: ClientState::Active, player: Some(3), world: Some(8) };
    assert!(!stranger.disconnect(&mut manager));
    assert_eq!(stranger, Client { id: 9, state: ClientState::Closed, player: None, world: None });
    assert_eq!(manager.worlds.len(), 1);
}
