use bytebuffer::ByteBuffer;
use vstd::prelude::*;

use crate::buffer::buffer_unread;
use crate::client::{Client, MessageError};

verus! {

/// The type of a packet, sent as the first byte of every message.
#[derive(Debug, Eq, PartialEq, Clone, Copy, Structural)]
pub enum PacketID {
    PlayerMove,
    PlayerShoot,
}

impl PacketID {
    /// The byte that stands for this packet type on the wire.
    pub open spec fn spec_number(self) -> u8 {
        match self {
            PacketID::PlayerMove => 1,
            PacketID::PlayerShoot => 2,
        }
    }

    /// The packet type that a wire byte stands for, if it stands for one.
    pub open spec fn spec_from_number(number: u8) -> Option<PacketID> {
        if number == 1 {
            Some(PacketID::PlayerMove)
        } else if number == 2 {
            Some(PacketID::PlayerShoot)
        } else {
            None
        }
    }

    /// The byte that stands for this packet type on the wire.
    pub fn number(self) -> (n: u8)
        ensures
            n == self.spec_number(),
    {
        match self {
            PacketID::PlayerMove => 1,
            PacketID::PlayerShoot => 2,
        }
    }

    /// Reads a wire byte as a packet type; `None` for a byte that stands for
    /// no packet type.
    pub fn try_from_primitive(number: u8) -> (id: Option<PacketID>)
        ensures
            id == PacketID::spec_from_number(number),
    {
        if number == 1 {
            Some(PacketID::PlayerMove)
        } else if number == 2 {
            Some(PacketID::PlayerShoot)
        } else {
            None
        }
    }

    /// A packet type is read back from its own wire byte, and a byte that is
    /// read as a packet type is that type's wire byte.
    pub proof fn lemma_number_round_trip(id: PacketID, number: u8)
        ensures
            PacketID::spec_from_number(id.spec_number()) == Some(id),
            PacketID::spec_from_number(number) == Some(id) <==> id.spec_number() == number,
    {
    }
}

/// A handler of packets: it says which packet types it accepts and
/// processes the packets of those types.
pub trait PacketHandler {
    /// The packet types that this handler accepts.
    spec fn accepts(&self, packet_id: PacketID) -> bool;

    /// What processing may do: the relation between the connection before,
    /// the unread payload, the connection after and the result.
    spec fn outcome(
        &self,
        before: Client,
        payload: Seq<u8>,
        after: Client,
        result: Result<(), MessageError>,
    ) -> bool;

    /// Whether this handler accepts packets of type `packet_id`.
    fn can_handle(&self, packet_id: PacketID) -> (accepted: bool)
        ensures
            accepted == self.accepts(packet_id),
    ;

    /// Processes one packet for `client`; `buffer` holds the message with
    /// the type byte already read. Whatever the handler does, the
    /// connection keeps its id and its state.
    fn process_packet(&self, client: &mut Client, buffer: ByteBuffer) -> (result: Result<
        (),
        MessageError,
    >)
        ensures
            self.outcome(*old(client), buffer_unread(buffer), *final(client), result),
            final(client).id == old(client).id,
            final(client).state == old(client).state,
    ;
}

/// Handler `i` is the first of `handlers` that accepts `packet_id`.
pub open spec fn is_first_match<H: PacketHandler>(
    handlers: Seq<H>,
    packet_id: PacketID,
    i: int,
) -> bool {
    &&& 0 <= i < handlers.len()
    &&& handlers[i].accepts(packet_id)
    &&& forall|j: int| 0 <= j < i ==> !(#[trigger] handlers[j]).accepts(packet_id)
}

/// No handler of `handlers` accepts `packet_id`.
pub open spec fn no_match<H: PacketHandler>(handlers: Seq<H>, packet_id: PacketID) -> bool {
    forall|j: int| 0 <= j < handlers.len() ==> !(#[trigger] handlers[j]).accepts(packet_id)
}

/// What dispatching a packet over a table of handlers does: the first
/// handler that accepts the packet type processes it, and no other; where
/// none accepts it, the packet is dropped as unprocessable and the
/// connection is left as it was.
pub open spec fn dispatched<H: PacketHandler>(
    handlers: Seq<H>,
    packet_id: PacketID,
    before: Client,
    payload: Seq<u8>,
    after: Client,
    result: Result<(), MessageError>,
) -> bool {
    if no_match(handlers, packet_id) {
        &&& result == Err::<(), MessageError>(MessageError::UnprocessablePacket)
        &&& after == before
    } else {
        exists|i: int| #[trigger]
            is_first_match(handlers, packet_id, i) && handlers[i].outcome(
                before,
                payload,
                after,
                result,
            )
    }
}

/// At most one handler is the first to accept a packet type.
pub proof fn lemma_first_match_unique<H: PacketHandler>(
    handlers: Seq<H>,
    packet_id: PacketID,
    i: int,
    j: int,
)
    requires
        is_first_match(handlers, packet_id, i),
        is_first_match(handlers, packet_id, j),
    ensures
        i == j,
{
    if i < j {
        assert(!handlers[i].accepts(packet_id));
    } else if j < i {
        assert(!handlers[j].accepts(packet_id));
    }
}

} // verus!
