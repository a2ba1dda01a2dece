use bytebuffer::ByteBuffer;
use world_server::client::{Client, ClientState, MessageError, StreamEvent};
use world_server::packet::{PacketHandler, PacketID};
use world_server::packet_handlers::packet_handlers;
use world_server::packet_handlers::player_move_handler::PlayerMoveHandler;
use world_server::server::{LogLevel, Server, ServerConfig};
use world_server::world_manager::WorldManagerConfig;

fn active_client(id: usize) -> Client {
    Client { id, state: ClientState::Active, player: None, world: None }
}

#[test]
fn packet_id_numbers() {
    assert_eq!(PacketID::PlayerMove.number(), 1);
    assert_eq!(PacketID::PlayerShoot.number(), 2);
    assert_eq!(PacketID::try_from_primitive(1), Some(PacketID::PlayerMove));
    assert_eq!(PacketID::try_from_primitive(2), Some(PacketID::PlayerShoot));
    assert_eq!(PacketID::try_from_primitive(0), None);
    assert_eq!(PacketID::try_from_primitive(3), None);
    assert_eq!(PacketID::try_from_primitive(255), None);
}

#[test]
fn empty_message_is_unprocessable_input() {
    let handlers = packet_handlers();
    let mut client = active_client(3);
    let result = client.process_message(&handlers, Vec::new());
    match result {
        Err(MessageError::UnprocessableInput(reason)) => assert_eq!(reason, "Could not read u8."),
        other => panic!("unexpected result: {:?}", other),
    }
    assert_eq!(client, active_client(3));
}

#[test]
fn unknown_type_byte_is_unprocessable_input() {
    let handlers = packet_handlers();
    let mut client = active_client(3);
    for byte in [0u8, 3, 7, 255] {
        match client.process_message(&handlers, vec![byte]) {
            Err(MessageError::UnprocessableInput(reason)) => {
                assert_eq!(reason, "Could not cast u8 to PacketID.")
            },
            other => panic!("unexpected result: {:?}", other),
        }
    }
    assert_eq!(client, active_client(3));
}

#[test]
fn packet_without_handler_is_unprocessable_packet() {
    let handlers = packet_handlers();
    let mut client = active_client(3);
    let result = client.process_message(&handlers, vec![2]);
    assert!(matches!(result, Err(MessageError::UnprocessablePacket)));
    let result = client.process_message(&handlers, vec![2, 9, 9]);
    assert!(matches!(result, Err(MessageError::UnprocessablePacket)));
    assert_eq!(client, active_client(3));
}

#[test]
fn player_move_is_dispatched_to_its_handler() {
    let handlers = packet_handlers();
    assert_eq!(handlers.len(), 1);
    assert!(handlers[0].can_handle(PacketID::PlayerMove));
    assert!(!handlers[0].can_handle(PacketID::PlayerShoot));
    let mut client = active_client(3);
    assert!(client.process_message(&handlers, vec![1]).is_ok());
    assert!(client.process_message(&handlers, vec![1, 0, 0, 128, 63]).is_ok());
    assert_eq!(client, active_client(3));
}

#[test]
fn empty_table_drops_every_packet() {
    let handlers: Vec<PlayerMoveHandler> = Vec::new();
    let mut client = active_client(0);
    let result = client.process_message(&handlers, vec![1]);
    assert!(matches!(result, Err(MessageError::UnprocessablePacket)));
    let result =
        client.process_packet(&handlers, PacketID::PlayerMove, ByteBuffer::from_vec(vec![1]));
    assert!(matches!(result, Err(MessageError::UnprocessablePacket)));
}

#[test]
fn process_packet_uses_the_first_match() {
    let handlers = vec![PlayerMoveHandler(), PlayerMoveHandler()];
    let mut client = active_client(4);
    let result =
        client.process_packet(&handlers, PacketID::PlayerMove, ByteBuffer::from_vec(vec![]));
    assert!(result.is_ok());
    let result =
        client.process_packet(&handlers, PacketID::PlayerShoot, ByteBuffer::from_vec(vec![]));
    assert!(matches!(result, Err(MessageError::UnprocessablePacket)));
    assert_eq!(client, active_client(4));
}

#[test]
fn player_move_handler_accepts_and_leaves_the_client() {
    let handler = PlayerMoveHandler();
    let mut client = active_client(6);
    let result = handler.process_packet(&mut client, ByteBuffer::from_vec(vec![1, 2, 3]));
    assert!(result.is_ok());
    assert_eq!(client, active_client(6));
}

#[test]
fn message_error_text() {
    assert_eq!(
        MessageError::UnprocessableInput("Could not read u8.".to_string()).message(),
        "UnprocessableInput: Could not read u8."
    );
    assert_eq!(MessageError::UnprocessableInput(String::new()).message(), "UnprocessableInput: ");
    assert_eq!(MessageError::UnprocessablePacket.message(), "UnprocessablePacket");
}

#[test]
fn new_client_is_connecting() {
    let client = Client::new();
    assert_eq!(
        client,
        Client { id: 0, state: ClientState::Connecting, player: None, world: None }
    );
}

#[test]
fn active_client_survives_bad_messages() {
    let handlers = packet_handlers();
    let mut client = active_client(2);
    assert!(client.process_next(&handlers, StreamEvent::Message(vec![])));
    assert!(client.process_next(&handlers, StreamEvent::Message(vec![200])));
    assert!(client.process_next(&handlers, StreamEvent::Message(vec![2])));
    assert!(client.process_next(&handlers, StreamEvent::Message(vec![1, 5])));
    assert_eq!(client, active_client(2));
}

#[test]
fn stream_end_and_read_error_start_closing() {
    let handlers = packet_handlers();
    let mut client = active_client(2);
    assert!(!client.process_next(&handlers, StreamEvent::End));
    assert_eq!(client.state, ClientState::Closing);
    assert_eq!(client.id, 2);

    let mut client = active_client(5);
    assert!(!client.process_next(&handlers, StreamEvent::ReadError));
    assert_eq!(client.state, ClientState::Closing);
}

#[test]
fn inactive_client_reads_nothing() {
    let handlers = packet_handlers();
    for state in [ClientState::Connecting, ClientState::Closing, ClientState::Closed] {
        let before = Client { id: 1, state, player: Some(2), world: Some(3) };
        let mut client = before;
        assert!(!client.process_next(&handlers, StreamEvent::Message(vec![1])));
        assert!(!client.process_next(&handlers, StreamEvent::End));
        assert_eq!(client, before);
    }
}

#[test]
fn interleaved_clients_do_not_disturb_each_other() {
    let handlers = packet_handlers();
    let mut first = Client { id: 0, state: ClientState::Active, player: Some(0), world: Some(0) };
    let mut second = Client { id: 1, state: ClientState::Active, player: Some(1), world: Some(0) };
    assert!(first.process_next(&handlers, StreamEvent::Message(vec![1, 1])));
    assert!(second.process_next(&handlers, StreamEvent::Message(vec![1, 2])));
    assert!(first.process_next(&handlers, StreamEvent::Message(vec![1, 3])));
    assert_eq!(
        first,
        Client { id: 0, state: ClientState::Active, player: Some(0), world: Some(0) }
    );
    assert_eq!(
        second,
        Client { id: 1, state: ClientState::Active, player: Some(1), world: Some(0) }
    );
}

#[test]
fn default_server_config() {
    let config = ServerConfig::default();
    assert_eq!(config.log_level, LogLevel::Debug);
    assert_eq!(config.address, "127.0.0.1:9000");
    assert_eq!(config.world_manager_config.max_client_count, 100);
}

#[test]
fn default_server_has_an_empty_registry() {
    let server = Server::default();
    assert_eq!(server.config.address, "127.0.0.1:9000");
    assert_eq!(server.config.log_level, LogLevel::Debug);
    assert_eq!(server.world_manager.config.max_client_count, 100);
    assert!(server.world_manager.clients.is_empty());
    assert!(server.world_manager.worlds.is_empty());
    assert_eq!(server.world_manager.next_client_id, 0);
    assert_eq!(server.world_manager.next_world_id, 0);
}

#[test]
fn server_registry_takes_its_settings_from_the_server() {
    let config = ServerConfig {
        log_level: LogLevel::Warn,
        address: "0.0.0.0:4000".to_string(),
        world_manager_config: WorldManagerConfig { max_client_count: 1 },
    };
    let mut server = Server::new(config);
    assert_eq!(server.config.address, "0.0.0.0:4000");
    assert_eq!(server.config.log_level, LogLevel::Warn);
    assert_eq!(server.world_manager.config.max_client_count, 1);
    assert_eq!(server.world_manager.try_connect_client(Client::new()), Ok(0));
    assert!(server.world_manager.try_connect_client(Client::new()).is_err());
}
