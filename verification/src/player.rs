use vstd::prelude::*;

verus! {

/// The link between a connection and the entity it controls inside a world.
///
/// Both ends are held by id: the entity lives in the world's entity table
/// under `entity_id`, the connection in the manager's registry under
/// `client_id`.
#[derive(Clone, Copy, Debug)]
pub struct Player {
    pub entity_id: u32,
    pub client_id: usize,
}

impl Player {
    /// The player that binds entity `entity_id` to connection `client_id`.
    pub fn new(entity_id: u32, client_id: usize) -> (p: Self)
        ensures
            p == (Player { entity_id, client_id }),
    {
        Player { entity_id, client_id }
    }
}

} // verus!
