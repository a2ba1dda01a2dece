use std::collections::HashMap;
use vstd::prelude::*;

use crate::entity::Entity;
use crate::player::Player;

verus! {

broadcast use {vstd::group_vstd_default, vstd::std_specs::hash::group_hash_axioms};

/// A simulation space: it owns its entities and its players and hands out
/// entity ids in increasing order, never twice.
///
/// `player_of_client` is an index over `players`: it maps each connection
/// that has a player here to that player's entity id.
pub struct World {
    pub id: usize,
    pub players: HashMap<u32, Player>,
    pub entities: HashMap<u32, Entity>,
    pub next_free_entity_id: u32,
    pub player_of_client: HashMap<usize, u32>,
}

/// The mathematical content of a `World`.
pub ghost struct WorldView {
    pub id: usize,
    pub players: Map<u32, Player>,
    pub entities: Map<u32, Entity>,
    pub next_free_entity_id: u32,
}

/// One step in the life of a world.
pub ghost enum WorldOp {
    /// The creation of an entity.
    CreateEntity,
    /// The removal of the entity with this id.
    RemoveEntity(u32),
    /// The creation of a player for the connection with this id.
    AddPlayer(usize),
    /// The removal of the player on the entity with this id.
    RemovePlayer(u32),
}

impl WorldView {
    /// The entity ids handed out so far, whether or not the entity still exists.
    pub open spec fn issued_ids(self) -> Set<u32> {
        Set::new(|i: u32| i < self.next_free_entity_id)
    }

    /// Connection `client_id` has a player in this world.
    pub open spec fn has_player_of(self, client_id: usize) -> bool {
        exists|e: u32|
            #![trigger self.players.contains_key(e)]
            self.players.contains_key(e) && self.players[e].client_id == client_id
    }

    /// Every live entity is stored under its own id, which was handed out
    /// before; every player is stored under the id of a live entity and
    /// names that entity; no connection has two players.
    pub open spec fn wf(self) -> bool {
        &&& forall|k: u32|
            #![trigger self.entities.contains_key(k)]
            self.entities.contains_key(k) ==> k < self.next_free_entity_id && self.entities[k].id
                == k
        &&& forall|k: u32|
            #![trigger self.players.contains_key(k)]
            self.players.contains_key(k) ==> self.entities.contains_key(k)
                && self.players[k].entity_id == k
        &&& forall|j: u32, k: u32|
            #![trigger self.players.contains_key(j), self.players.contains_key(k)]
            self.players.contains_key(j) && self.players.contains_key(k)
                && self.players[j].client_id == self.players[k].client_id ==> j == k
    }

    /// The world after a fresh entity was created at the origin.
    pub open spec fn with_new_entity(self) -> WorldView {
        WorldView {
            entities: self.entities.insert(
                self.next_free_entity_id,
                Entity::spec_new(self.next_free_entity_id),
            ),
            next_free_entity_id: (self.next_free_entity_id + 1) as u32,
            ..self
        }
    }

    /// The world after a fresh entity and a player for `client_id` on it
    /// were created.
    pub open spec fn with_new_player(self, client_id: usize) -> WorldView {
        WorldView {
            players: self.players.insert(
                self.next_free_entity_id,
                Player { entity_id: self.next_free_entity_id, client_id },
            ),
            ..self.with_new_entity()
        }
    }

    /// The world without entity `id` and without the player on it.
    pub open spec fn without_entity(self, id: u32) -> WorldView {
        WorldView { entities: self.entities.remove(id), players: self.players.remove(id), ..self }
    }

    /// The world without the player on entity `entity_id`; the entity stays.
    pub open spec fn without_player(self, entity_id: u32) -> WorldView {
        WorldView { players: self.players.remove(entity_id), ..self }
    }

    /// The world after connection `client_id` asked for a player: it gets
    /// one on a fresh entity unless it has one already.
    pub open spec fn with_player_for(self, client_id: usize) -> WorldView {
        if self.has_player_of(client_id) {
            self
        } else {
            self.with_new_player(client_id)
        }
    }

    /// The world after one step.
    pub open spec fn apply(self, op: WorldOp) -> WorldView {
        match op {
            WorldOp::CreateEntity => self.with_new_entity(),
            WorldOp::RemoveEntity(id) => self.without_entity(id),
            WorldOp::AddPlayer(client_id) => self.with_player_for(client_id),
            WorldOp::RemovePlayer(entity_id) => self.without_player(entity_id),
        }
    }

    /// The world after the steps of `ops`, taken in order.
    pub open spec fn apply_all(self, ops: Seq<WorldOp>) -> WorldView
        decreases ops.len(),
    {
        if ops.len() == 0 {
            self
        } else {
            self.apply_all(ops.drop_last()).apply(ops.last())
        }
    }

    /// One step keeps a world well formed, does not lower the counter of
    /// entity ids and raises it by one at most.
    pub proof fn lemma_apply_keeps_wf(self, op: WorldOp)
        requires
            self.wf(),
            op is CreateEntity || op is AddPlayer ==> self.next_free_entity_id < u32::MAX,
        ensures
            self.apply(op).wf(),
            self.apply(op).id == self.id,
            self.next_free_entity_id <= self.apply(op).next_free_entity_id
                <= self.next_free_entity_id + 1,
    {
        let after = self.apply(op);
        let fresh = self.next_free_entity_id;
        assert(!self.entities.contains_key(fresh));
        assert(!self.players.contains_key(fresh));
        assert forall|k: u32| #[trigger] after.entities.contains_key(k) implies k
            < after.next_free_entity_id && after.entities[k].id == k by {
            if k != fresh {
                assert(self.entities.contains_key(k));
            }
        }
        assert forall|k: u32| #[trigger] after.players.contains_key(k) implies after.entities.contains_key(k)
            && after.players[k].entity_id == k by {
            if k != fresh {
                assert(self.players.contains_key(k));
            }
        }
        assert forall|j: u32, k: u32|
            #![trigger after.players.contains_key(j), after.players.contains_key(k)]
            after.players.contains_key(j) && after.players.contains_key(k)
                && after.players[j].client_id == after.players[k].client_id implies j == k by {
            if j != fresh {
                assert(self.players.contains_key(j));
            }
            if k != fresh {
                assert(self.players.contains_key(k));
            }
        }
    }

    /// Whatever steps a well-formed world goes through, it stays well
    /// formed and its counter of entity ids never goes down.
    pub proof fn lemma_apply_all_keeps_wf(self, ops: Seq<WorldOp>)
        requires
            self.wf(),
            self.next_free_entity_id + ops.len() <= u32::MAX,
        ensures
            self.apply_all(ops).wf(),
            self.next_free_entity_id <= self.apply_all(ops).next_free_entity_id
                <= self.next_free_entity_id + ops.len(),
        decreases ops.len(),
    {
        if ops.len() > 0 {
            self.lemma_apply_all_keeps_wf(ops.drop_last());
            self.apply_all(ops.drop_last()).lemma_apply_keeps_wf(ops.last());
        }
    }

    /// An entity id is never handed out twice: the id that the next entity
    /// gets after any steps was not handed out before them, and no entity
    /// that exists before or after them has it.
    pub proof fn lemma_entity_ids_never_reused(self, ops: Seq<WorldOp>)
        requires
            self.wf(),
            self.next_free_entity_id + ops.len() <= u32::MAX,
        ensures
            !self.issued_ids().contains(self.apply_all(ops).next_free_entity_id),
            !self.entities.contains_key(self.apply_all(ops).next_free_entity_id),
            !self.apply_all(ops).entities.contains_key(self.apply_all(ops).next_free_entity_id),
    {
        self.lemma_apply_all_keeps_wf(ops);
    }

    /// Removing an entity removes the player on it, and afterwards every
    /// player still stands on an entity that exists.
    pub proof fn lemma_no_player_without_entity(self, id: u32)
        requires
            self.wf(),
        ensures
            !self.without_entity(id).entities.contains_key(id),
            !self.without_entity(id).players.contains_key(id),
            forall|k: u32|
                #![trigger self.without_entity(id).players.contains_key(k)]
                self.without_entity(id).players.contains_key(k) ==> self.without_entity(
                    id,
                ).entities.contains_key(k),
    {
        self.lemma_apply_keeps_wf(WorldOp::RemoveEntity(id));
        let after = self.without_entity(id);
        assert forall|k: u32| #[trigger] after.players.contains_key(k) implies after.entities.contains_key(k) by {
        }
    }
}

impl View for World {
    type V = WorldView;

    open spec fn view(&self) -> WorldView {
        WorldView {
            id: self.id,
            players: self.players@,
            entities: self.entities@,
            next_free_entity_id: self.next_free_entity_id,
        }
    }
}

impl World {
    /// The index agrees with the player table, in both directions.
    pub open spec fn index_wf(&self) -> bool {
        &&& forall|c: usize|
            #![trigger self.player_of_client@.contains_key(c)]
            self.player_of_client@.contains_key(c) ==> self.players@.contains_key(
                self.player_of_client@[c],
            ) && self.players@[self.player_of_client@[c]].client_id == c
        &&& forall|e: u32|
            #![trigger self.players@.contains_key(e)]
            self.players@.contains_key(e) ==> self.player_of_client@.contains_key(
                self.players@[e].client_id,
            ) && self.player_of_client@[self.players@[e].client_id] == e
    }

    /// The validity of a world: its content is well formed and its index
    /// agrees with it.
    pub open spec fn wf(&self) -> bool {
        &&& self@.wf()
        &&& self.index_wf()
    }

    /// Validity does not depend on the world's own id.
    pub proof fn lemma_wf_with_id(self, id: usize)
        requires
            self.wf(),
        ensures
            (World { id, ..self }).wf(),
    {
        let other = World { id, ..self };
        assert forall|k: u32| #[trigger] other@.entities.contains_key(k) implies k
            < other@.next_free_entity_id && other@.entities[k].id == k by {
            assert(self@.entities.contains_key(k));
        }
        assert forall|k: u32| #[trigger] other@.players.contains_key(k) implies other@.entities.contains_key(k)
            && other@.players[k].entity_id == k by {
            assert(self@.players.contains_key(k));
        }
        assert forall|j: u32, k: u32|
            #![trigger other@.players.contains_key(j), other@.players.contains_key(k)]
            other@.players.contains_key(j) && other@.players.contains_key(k)
                && other@.players[j].client_id == other@.players[k].client_id implies j == k by {
            assert(self@.players.contains_key(j));
            assert(self@.players.contains_key(k));
        }
        assert forall|c: usize| #[trigger] other.player_of_client@.contains_key(c) implies
            other.players@.contains_key(other.player_of_client@[c])
            && other.players@[other.player_of_client@[c]].client_id == c by {
            assert(self.player_of_client@.contains_key(c));
        }
        assert forall|e: u32| #[trigger] other.players@.contains_key(e) implies
            other.player_of_client@.contains_key(other.players@[e].client_id)
            && other.player_of_client@[other.players@[e].client_id] == e by {
            assert(self.players@.contains_key(e));
        }
    }

    /// An empty world with id 0, which has handed out no entity id yet.
    pub fn new() -> (w: Self)
        ensures
            w.wf(),
            w@.id == 0,
            w@.players == Map::<u32, Player>::empty(),
            w@.entities == Map::<u32, Entity>::empty(),
            w@.next_free_entity_id == 0,
    {
        World {
            id: 0,
            players: HashMap::<u32, Player>::new(),
            entities: HashMap::<u32, Entity>::new(),
            next_free_entity_id: 0,
            player_of_client: HashMap::<usize, u32>::new(),
        }
    }

    /// Creates an entity at the origin under the next free id and returns
    /// that id. The id is one that this world never handed out before.
    pub fn create_entity(&mut self) -> (id: u32)
        requires
            old(self).wf(),
            old(self).next_free_entity_id < u32::MAX,
        ensures
            final(self).wf(),
            id == old(self)@.next_free_entity_id,
            !old(self)@.issued_ids().contains(id),
            !old(self)@.entities.contains_key(id),
            final(self)@ == old(self)@.with_new_entity(),
            final(self)@.issued_ids() == old(self)@.issued_ids().insert(id),
    {
        let id: u32 = self.next_free_entity_id;
        let new_entity = Entity::new(id);
        self.entities.insert(id, new_entity);
        self.next_free_entity_id = id + 1;
        proof {
            assert(self@.issued_ids() =~= old(self)@.issued_ids().insert(id));
            assert(self@ == old(self)@.apply(WorldOp::CreateEntity));
            old(self)@.lemma_apply_keeps_wf(WorldOp::CreateEntity);
        }
        id
    }

    /// Removes entity `id` and the player on it, if there is one, and
    /// returns the entity. For an id without an entity nothing changes and
    /// the result is `None`. The id is not handed out again.
    pub fn remove_entity(&mut self, id: u32) -> (removed: Option<Entity>)
        requires
            old(self).wf(),
        ensures
            final(self).wf(),
            final(self)@ == old(self)@.without_entity(id),
            removed == (if old(self)@.entities.contains_key(id) {
                Some(old(self)@.entities[id])
            } else {
                None
            }),
            !old(self)@.entities.contains_key(id) ==> final(self)@ == old(self)@,
            !final(self)@.entities.contains_key(id),
            !final(self)@.players.contains_key(id),
            final(self)@.issued_ids() == old(self)@.issued_ids(),
    {
        let removed_entity = self.entities.remove(&id);
        self.drop_player(id);
        proof {
            if !old(self)@.entities.contains_key(id) {
                assert(!old(self)@.players.contains_key(id));
                assert(self.entities@ =~= old(self).entities@);
                assert(self.players@ =~= old(self).players@);
            }
            assert(self@ == old(self)@.apply(WorldOp::RemoveEntity(id)));
            old(self)@.lemma_apply_keeps_wf(WorldOp::RemoveEntity(id));
        }
        removed_entity
    }

    /// Creates an entity and, on it, a player for connection `client_id`,
    /// and returns the entity's id. A connection has at most one player in a
    /// world: where it has one already, nothing changes and the result is
    /// `None`.
    pub fn add_player(&mut self, client_id: usize) -> (added: Option<u32>)
        requires
            old(self).wf(),
            old(self)@.has_player_of(client_id) || old(self).next_free_entity_id < u32::MAX,
        ensures
            final(self).wf(),
            added is None <==> old(self)@.has_player_of(client_id),
            added is None ==> final(self)@ == old(self)@,
            added is Some ==> {
                &&& added == Some(old(self)@.next_free_entity_id)
                &&& final(self)@ == old(self)@.with_new_player(client_id)
                &&& final(self)@.has_player_of(client_id)
            },
    {
        if self.player_of_client.contains_key(&client_id) {
            proof {
                let e = self.player_of_client@[client_id];
                assert(self@.players.contains_key(e));
            }
            return None;
        }
        let id = self.create_entity();
        self.players.insert(id, Player::new(id, client_id));
        self.player_of_client.insert(client_id, id);
        proof {
            assert(self@.players.contains_key(id));
        }
        Some(id)
    }

    /// Removes the player on entity `entity_id` and leaves the entity in
    /// place. Returns whether there was such a player; where there was none,
    /// nothing changes.
    pub fn remove_player(&mut self, entity_id: u32) -> (removed: bool)
        requires
            old(self).wf(),
        ensures
            final(self).wf(),
            removed == old(self)@.players.contains_key(entity_id),
            final(self)@ == old(self)@.without_player(entity_id),
            !removed ==> final(self)@ == old(self)@,
            !final(self)@.players.contains_key(entity_id),
    {
        let removed = self.drop_player(entity_id);
        proof {
            assert(self@ == old(self)@.apply(WorldOp::RemovePlayer(entity_id)));
            old(self)@.lemma_apply_keeps_wf(WorldOp::RemovePlayer(entity_id));
        }
        removed
    }

    /// Takes the player on `entity_id`, if any, out of the player table and
    /// out of the index. The entity table is not read: it may already lack
    /// the entity.
    fn drop_player(&mut self, entity_id: u32) -> (removed: bool)
        requires
            old(self).index_wf(),
        ensures
            final(self).index_wf(),
            removed == old(self).players@.contains_key(entity_id),
            final(self).players@ == old(self).players@.remove(entity_id),
            !removed ==> final(self).players@ == old(self).players@,
            final(self).entities@ == old(self).entities@,
            final(self).id == old(self).id,
            final(self).next_free_entity_id == old(self).next_free_entity_id,
    {
        match self.players.remove(&entity_id) {
            Some(player) => {
                self.player_of_client.remove(&player.client_id);
                true
            },
            None => {
                proof {
                    assert(self.players@ =~= old(self).players@);
                }
                false
            },
        }
    }
}

} // verus!

