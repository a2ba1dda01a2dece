use vstd::prelude::*;

use crate::types::Vec2;

verus! {

/// A simulated object: an identity, unique within its world, and a position.
#[derive(Clone, Copy, Debug)]
pub struct Entity {
    pub id: u32,
    pub pos: Vec2,
}

impl Entity {
    /// A new entity with the given id, placed at the origin.
    pub fn new(id: u32) -> (e: Self)
        ensures
            e == Entity::spec_new(id),
    {
        Entity { id, pos: Vec2::zero() }
    }

    /// What `new` builds, as a specification value.
    pub open spec fn spec_new(id: u32) -> Self {
        Entity { id, pos: Vec2::spec_zero() }
    }
}

} // verus!
