use bytebuffer::ByteBuffer;
use vstd::prelude::*;

use crate::client::{Client, MessageError};
use crate::packet::{PacketHandler, PacketID};

verus! {

/// The handler of `PlayerMove` packets. The payload of such a packet has no
/// layout yet: the handler accepts the packet and leaves the connection as
/// it is.
pub struct PlayerMoveHandler();

impl PacketHandler for PlayerMoveHandler {
    open spec fn accepts(&self, packet_id: PacketID) -> bool {
        packet_id == PacketID::PlayerMove
    }

    open spec fn outcome(
        &self,
        before: Client,
        payload: Seq<u8>,
        after: Client,
        result: Result<(), MessageError>,
    ) -> bool {
        &&& result is Ok
        &&& after == before
    }

    fn can_handle(&self, packet_id: PacketID) -> (accepted: bool) {
        packet_id == PacketID::PlayerMove
    }

    fn process_packet(&self, client: &mut Client, buffer: ByteBuffer) -> (result: Result<
        (),
        MessageError,
    >) {
        Ok(())
    }
}

} // verus!
