use bytebuffer::{ByteBuffer, Endian};
use vstd::prelude::*;

use crate::buffer::{
    buffer_bytes,
    buffer_cursor,
    buffer_from_vec,
    buffer_read_u8,
    buffer_is_little_endian,
    buffer_unread,
};
use crate::packet::{dispatched, is_first_match, no_match, PacketHandler, PacketID};
use crate::world::World;
use crate::world_manager::WorldManager;

verus! {

broadcast use {vstd::group_vstd_default, vstd::std_specs::hash::group_hash_axioms};

/// Where a connection stands in its life.
#[derive(Debug, Eq, PartialEq, Clone, Copy, Structural)]
pub enum ClientState {
    /// The transport handshake is under way.
    Connecting,
    /// Messages are read and processed.
    Active,
    /// The stream ended or failed; cleanup is due.
    Closing,
    /// Cleanup has run; nothing more happens.
    Closed,
}

/// What the transport reports when the next message is awaited.
#[derive(Debug)]
pub enum StreamEvent {
    /// One whole message arrived, with this payload.
    Message(Vec<u8>),
    /// Reading failed.
    ReadError,
    /// The peer ended the stream.
    End,
}

/// Why a message was dropped.
#[derive(Debug)]
pub enum MessageError {
    /// The message could not be read as a typed packet.
    UnprocessableInput(String),
    /// The packet type was read, and no handler accepts it.
    UnprocessablePacket,
}

impl MessageError {
    /// The text of this error.
    pub open spec fn spec_message(&self) -> Seq<char> {
        match self {
            MessageError::UnprocessableInput(msg) => "UnprocessableInput: "@ + msg@,
            MessageError::UnprocessablePacket => "UnprocessablePacket"@,
        }
    }

    /// The text of this error: the variant's name, followed for
    /// `UnprocessableInput` by a colon, a space and the reason.
    pub fn message(&self) -> (text: String)
        ensures
            text@ == self.spec_message(),
    {
        match self {
            MessageError::UnprocessableInput(msg) => {
                let mut text = "UnprocessableInput: ".to_owned();
                text.append(msg.as_str());
                text
            },
            MessageError::UnprocessablePacket => "UnprocessablePacket".to_owned(),
        }
    }
}

/// The record of one connection: its identity, its state and its links
/// into a world. The transport itself is held by whoever runs the
/// connection.
#[derive(Debug, Clone, Copy, PartialEq, Eq)]
pub struct Client {
    pub id: usize,
    pub state: ClientState,
    /// The entity id of this connection's player, once it has one.
    pub player: Option<u32>,
    /// The id of the world that this connection has joined, once it has.
    pub world: Option<usize>,
}

/// The reason given when a message is empty.
pub open spec fn spec_no_type_byte() -> Seq<char> {
    "Could not read u8."@
}

/// The reason given when the type byte stands for no packet type.
pub open spec fn spec_unknown_type_byte() -> Seq<char> {
    "Could not cast u8 to PacketID."@
}

/// What processing one message does. An empty message, and one whose first
/// byte stands for no packet type, are refused as unprocessable input and
/// leave the connection as it was; any other message is dispatched, by its
/// type, with the bytes after the first as payload.
pub open spec fn message_processed<H: PacketHandler>(
    handlers: Seq<H>,
    before: Client,
    data: Seq<u8>,
    after: Client,
    result: Result<(), MessageError>,
) -> bool {
    if data.len() == 0 {
        &&& after == before
        &&& result matches Err(MessageError::UnprocessableInput(reason))
        &&& reason@ == spec_no_type_byte()
    } else {
        match PacketID::spec_from_number(data[0]) {
            None => {
                &&& after == before
                &&& result matches Err(MessageError::UnprocessableInput(reason))
                &&& reason@ == spec_unknown_type_byte()
            },
            Some(packet_id) => dispatched(handlers, packet_id, before, data.skip(1), after, result),
        }
    }
}

/// What closing a connection does to the worlds: where the connection has
/// joined a registered world and has a player, that world loses the player
/// and keeps the entity; every other world, and in any other case every
/// world, stays as it was.
pub open spec fn player_cleaned_up(
    client: Client,
    before: Map<usize, World>,
    after: Map<usize, World>,
) -> bool {
    if client.world is Some && client.player is Some && before.contains_key(
        client.world->Some_0,
    ) {
        let world_id = client.world->Some_0;
        &&& after.dom() == before.dom()
        &&& after[world_id]@ == before[world_id]@.without_player(client.player->Some_0)
        &&& forall|k: usize|
            #![trigger after[k]]
            before.contains_key(k) && k != world_id ==> after[k] == before[k]
    } else {
        after == before
    }
}

/// Decodes one message: the first byte is the packet type, the rest is the
/// payload, with integers in little-endian order. Returns the packet type
/// together with a buffer over the whole message whose read position stands
/// after the type byte. An empty message, and one whose first byte stands
/// for no packet type, are refused as unprocessable input.
pub fn decode_message(data: Vec<u8>) -> (decoded: Result<(PacketID, ByteBuffer), MessageError>)
    ensures
        match decoded {
            Ok((packet_id, buffer)) => {
                &&& data@.len() > 0
                &&& PacketID::spec_from_number(data@[0]) == Some(packet_id)
                &&& buffer_bytes(buffer) == data@
                &&& buffer_cursor(buffer) == 1
                &&& buffer_unread(buffer) == data@.skip(1)
                &&& buffer_is_little_endian(buffer)
            },
            Err(MessageError::UnprocessableInput(reason)) => {
                if data@.len() == 0 {
                    reason@ == spec_no_type_byte()
                } else {
                    &&& PacketID::spec_from_number(data@[0]) is None
                    &&& reason@ == spec_unknown_type_byte()
                }
            },
            Err(MessageError::UnprocessablePacket) => false,
        },
{
    let mut buffer = buffer_from_vec(data);
    buffer.set_endian(Endian::LittleEndian);
    let number = match buffer_read_u8(&mut buffer) {
        Some(number) => number,
        None => {
            return Err(MessageError::UnprocessableInput("Could not read u8.".to_owned()));
        },
    };
    match PacketID::try_from_primitive(number) {
        Some(packet_id) => Ok((packet_id, buffer)),
        None => Err(MessageError::UnprocessableInput("Could not cast u8 to PacketID.".to_owned())),
    }
}

impl Client {
    /// The record of a connection whose handshake is under way: id 0, no
    /// player and no world.
    pub fn new() -> (client: Self)
        ensures
            client == (Client { id: 0, state: ClientState::Connecting, player: None, world: None }),
    {
        Client { id: 0, state: ClientState::Connecting, player: None, world: None }
    }

    /// Takes one event of the transport and returns whether the connection
    /// goes on reading.
    ///
    /// Only an active connection reads: in any other state nothing changes
    /// and the result is `false`. An active connection processes a message
    /// and stays active, whether or not the message could be processed; a
    /// read error or the end of the stream moves it to `Closing`.
    pub fn process_next<H: PacketHandler>(&mut self, handlers: &Vec<H>, event: StreamEvent) -> (go_on:
        bool)
        ensures
            go_on == (old(self).state == ClientState::Active && event is Message),
            final(self).id == old(self).id,
            old(self).state != ClientState::Active ==> *final(self) == *old(self),
            old(self).state == ClientState::Active ==> match event {
                StreamEvent::Message(data) => {
                    &&& final(self).state == ClientState::Active
                    &&& exists|result: Result<(), MessageError>|
                        message_processed(handlers@, *old(self), data@, *final(self), result)
                },
                _ => *final(self) == (Client { state: ClientState::Closing, ..*old(self) }),
            },
    {
        if self.state != ClientState::Active {
            return false;
        }
        match event {
            StreamEvent::Message(data) => {
                let ghost bytes = data@;
                let result = self.process_message(handlers, data);
                proof {
                    assert(message_processed(handlers@, *old(self), bytes, *self, result));
                }
                true
            },
            StreamEvent::ReadError => {
                self.state = ClientState::Closing;
                false
            },
            StreamEvent::End => {
                self.state = ClientState::Closing;
                false
            },
        }
    }

    /// Runs the cleanup that closing a connection owes, once the transport
    /// was closed or has failed: the connection's player leaves its world,
    /// the connection leaves the registry, and its record becomes `Closed`
    /// with no links. Returns whether the connection was registered. A
    /// second call finds nothing to remove and changes nothing more.
    pub fn disconnect(&mut self, manager: &mut WorldManager) -> (removed: bool)
        requires
            old(manager).wf(),
        ensures
            final(manager).wf(),
            *final(self) == (Client {
                id: old(self).id,
                state: ClientState::Closed,
                player: None,
                world: None,
            }),
            removed == old(manager)@.clients.contains_key(old(self).id),
            final(manager)@.clients == old(manager)@.clients.remove(old(self).id),
            final(manager).config == old(manager).config,
            final(manager)@.next_client_id == old(manager)@.next_client_id,
            final(manager)@.next_world_id == old(manager)@.next_world_id,
            player_cleaned_up(*old(self), old(manager)@.worlds, final(manager)@.worlds),
    {
        match (self.world, self.player) {
            (Some(world_id), Some(entity_id)) => {
                match manager.worlds.remove(&world_id) {
                    Some(world) => {
                        let mut world = world;
                        proof {
                            assert(old(manager)@.worlds.contains_key(world_id));
                            assert(world == old(manager)@.worlds[world_id]);
                        }
                        world.remove_player(entity_id);
                        manager.worlds.insert(world_id, world);
                        proof {
                            assert(manager@.worlds.dom() =~= old(manager)@.worlds.dom());
                            assert forall|k: usize| #[trigger]
                                manager@.worlds.contains_key(k) implies k < manager@.next_world_id
                                && manager@.worlds[k].id == k && manager@.worlds[k].wf() by {
                                assert(old(manager)@.worlds.contains_key(k));
                            }
                            assert forall|k: usize| #[trigger]
                                manager@.clients.contains_key(k) implies k < manager@.next_client_id
                                && manager@.clients[k].id == k by {
                                assert(old(manager)@.clients.contains_key(k));
                            }
                        }
                    },
                    None => {
                        proof {
                            assert(manager.worlds@ =~= old(manager).worlds@);
                        }
                    },
                }
            },
            _ => {},
        }
        let removed = manager.disconnect_client(self.id);
        self.state = ClientState::Closed;
        self.player = None;
        self.world = None;
        removed
    }

    /// Decodes one message and dispatches it: the first byte is the packet
    /// type, the rest is the payload, with integers in little-endian order.
    /// The connection keeps its id and its state whatever the message holds.
    pub fn process_message<H: PacketHandler>(&mut self, handlers: &Vec<H>, data: Vec<u8>) -> (result:
        Result<(), MessageError>)
        ensures
            message_processed(handlers@, *old(self), data@, *final(self), result),
            final(self).id == old(self).id,
            final(self).state == old(self).state,
    {
        let (packet_id, buffer) = match decode_message(data) {
            Ok(decoded) => decoded,
            Err(e) => {
                return Err(e);
            },
        };
        self.process_packet(handlers, packet_id, buffer)
    }

    /// Hands a decoded packet to the first handler of the table that accepts
    /// its type. Where none accepts it the packet is dropped: the result is
    /// `UnprocessablePacket` and the connection is left as it was.
    pub fn process_packet<H: PacketHandler>(
        &mut self,
        handlers: &Vec<H>,
        packet_id: PacketID,
        buffer: ByteBuffer,
    ) -> (result: Result<(), MessageError>)
        ensures
            dispatched(
                handlers@,
                packet_id,
                *old(self),
                buffer_unread(buffer),
                *final(self),
                result,
            ),
            final(self).id == old(self).id,
            final(self).state == old(self).state,
    {
        let mut i: usize = 0;
        while i < handlers.len()
            invariant
                i <= handlers@.len(),
                *self == *old(self),
                forall|j: int| 0 <= j < i ==> !(#[trigger] handlers@[j]).accepts(packet_id),
            decreases handlers@.len() - i,
        {
            if handlers[i].can_handle(packet_id) {
                let result = handlers[i].process_packet(self, buffer);
                proof {
                    assert(is_first_match(handlers@, packet_id, i as int));
                    assert(!no_match(handlers@, packet_id));
                }
                return result;
            }
            i += 1;
        }
        proof {
            assert(no_match(handlers@, packet_id));
        }
        Err(MessageError::UnprocessablePacket)
    }
}

} // verus!
