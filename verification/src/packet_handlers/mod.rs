use vstd::prelude::*;

use self::player_move_handler::PlayerMoveHandler;
use crate::client::{message_processed, Client, MessageError};
use crate::packet::{PacketHandler, PacketID};

pub mod player_move_handler;

verus! {

/// The table of packet handlers, in the order in which dispatch tries them.
pub fn packet_handlers() -> (handlers: Vec<PlayerMoveHandler>)
    ensures
        handlers@ == seq![PlayerMoveHandler()],
{
    let mut handlers: Vec<PlayerMoveHandler> = Vec::new();
    handlers.push(PlayerMoveHandler());
    handlers
}

/// What the table of `packet_handlers` does with a message: an empty one
/// and one with an unknown type byte are refused as unprocessable input, a
/// `PlayerMove` packet is accepted by the `PlayerMove` handler, a
/// `PlayerShoot` packet finds no handler and is dropped; the connection is
/// left as it was in every case.
pub proof fn lemma_table_outcomes(
    before: Client,
    data: Seq<u8>,
    after: Client,
    result: Result<(), MessageError>,
)
    requires
        message_processed(seq![PlayerMoveHandler()], before, data, after, result),
    ensures
        after == before,
        data.len() == 0 || (data[0] != 1 && data[0] != 2) ==> result matches Err(
            MessageError::UnprocessableInput(_),
        ),
        data.len() > 0 && data[0] == 1 ==> result is Ok,
        data.len() > 0 && data[0] == 2 ==> result == Err::<(), MessageError>(
            MessageError::UnprocessablePacket,
        ),
{
    let handlers = seq![PlayerMoveHandler()];
    assert(handlers[0].accepts(PacketID::PlayerMove));
    assert(!handlers[0].accepts(PacketID::PlayerShoot));
}

} // verus!
