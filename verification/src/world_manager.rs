use std::collections::HashMap;
use vstd::prelude::*;

use crate::client::{Client, ClientState};
use crate::world::World;

verus! {

broadcast use {vstd::group_vstd_default, vstd::std_specs::hash::group_hash_axioms};

/// The settings of a `WorldManager`.
#[derive(Clone, Copy, Debug)]
pub struct WorldManagerConfig {
    /// How many connections may be registered at one time.
    pub max_client_count: usize,
}

impl WorldManagerConfig {
    /// The default settings: room for 100 connections.
    pub fn default() -> (config: WorldManagerConfig)
        ensures
            config.max_client_count == 100,
    {
        WorldManagerConfig { max_client_count: 100 }
    }
}

/// Why a connection was not admitted.
#[derive(Debug, Clone, Copy, PartialEq, Eq, Structural)]
pub enum WorldError {
    /// The registry already holds as many connections as it may.
    TooManyClients,
}

impl WorldError {
    /// The text of this error: the variant's name.
    pub fn message(&self) -> (text: String)
        ensures
            text@ == "TooManyClients"@,
    {
        match self {
            WorldError::TooManyClients => "TooManyClients".to_owned(),
        }
    }
}

/// The registry of connections and worlds. It alone hands out connection
/// ids and world ids, each in increasing order and never twice, and it
/// admits a connection only while there is room.
pub struct WorldManager {
    pub config: WorldManagerConfig,
    pub next_client_id: usize,
    pub clients: HashMap<usize, Client>,
    pub next_world_id: usize,
    pub worlds: HashMap<usize, World>,
}

/// The mathematical content of a `WorldManager`.
pub ghost struct WorldManagerView {
    pub max_client_count: usize,
    pub clients: Map<usize, Client>,
    pub next_client_id: usize,
    pub worlds: Map<usize, World>,
    pub next_world_id: usize,
}

/// One step in the life of the registry.
pub ghost enum RegistryOp {
    /// An attempt to admit a connection.
    Connect(Client),
    /// The removal of the connection with this id.
    Disconnect(usize),
    /// The registration of a world.
    AddWorld(World),
    /// The removal of the world with this id.
    RemoveWorld(usize),
}

impl WorldManagerView {
    /// The connection ids handed out so far, whether or not the connection
    /// is still registered.
    pub open spec fn issued_client_ids(self) -> Set<usize> {
        Set::new(|i: usize| i < self.next_client_id)
    }

    /// The world ids handed out so far, whether or not the world is still
    /// registered.
    pub open spec fn issued_world_ids(self) -> Set<usize> {
        Set::new(|i: usize| i < self.next_world_id)
    }

    /// The connection registry is valid: it is finite and holds no more
    /// connections than it may, each under its own id, which was handed out
    /// before.
    pub open spec fn clients_wf(self) -> bool {
        &&& self.clients.dom().finite()
        &&& self.clients.len() <= self.max_client_count
        &&& forall|k: usize|
            #![trigger self.clients.contains_key(k)]
            self.clients.contains_key(k) ==> k < self.next_client_id && self.clients[k].id == k
    }

    /// The world registry is valid: each world is valid and stored under
    /// its own id, which was handed out before.
    pub open spec fn worlds_wf(self) -> bool {
        forall|k: usize|
            #![trigger self.worlds.contains_key(k)]
            self.worlds.contains_key(k) ==> k < self.next_world_id && self.worlds[k].id == k
                && self.worlds[k].wf()
    }

    /// Every registered world has an id that was handed out before.
    pub open spec fn worlds_issued(self) -> bool {
        forall|k: usize|
            #![trigger self.worlds.contains_key(k)]
            self.worlds.contains_key(k) ==> k < self.next_world_id
    }

    /// There is room for one more connection.
    pub open spec fn has_room(self) -> bool {
        self.clients.len() < self.max_client_count
    }

    /// What an admission attempt returns: the next free id while there is
    /// room, `TooManyClients` while there is none.
    pub open spec fn connect_result(self) -> Result<usize, WorldError> {
        if self.has_room() {
            Ok(self.next_client_id)
        } else {
            Err(WorldError::TooManyClients)
        }
    }

    /// The registry after an admission attempt: while there is room, the
    /// connection is stored, active, under the next free id; while there is
    /// none, nothing changes.
    pub open spec fn connect(self, client: Client) -> WorldManagerView {
        if self.has_room() {
            WorldManagerView {
                clients: self.clients.insert(
                    self.next_client_id,
                    Client { id: self.next_client_id, state: ClientState::Active, ..client },
                ),
                next_client_id: (self.next_client_id + 1) as usize,
                ..self
            }
        } else {
            self
        }
    }

    /// The registry without connection `client_id`.
    pub open spec fn disconnect(self, client_id: usize) -> WorldManagerView {
        WorldManagerView { clients: self.clients.remove(client_id), ..self }
    }

    /// The registry after `world` was stored under the next free world id.
    pub open spec fn with_world(self, world: World) -> WorldManagerView {
        WorldManagerView {
            worlds: self.worlds.insert(self.next_world_id, World { id: self.next_world_id, ..world }),
            next_world_id: (self.next_world_id + 1) as usize,
            ..self
        }
    }

    /// The registry without world `world_id`.
    pub open spec fn without_world(self, world_id: usize) -> WorldManagerView {
        WorldManagerView { worlds: self.worlds.remove(world_id), ..self }
    }

    /// The registry after one step.
    pub open spec fn apply(self, op: RegistryOp) -> WorldManagerView {
        match op {
            RegistryOp::Connect(client) => self.connect(client),
            RegistryOp::Disconnect(client_id) => self.disconnect(client_id),
            RegistryOp::AddWorld(world) => self.with_world(world),
            RegistryOp::RemoveWorld(world_id) => self.without_world(world_id),
        }
    }

    /// The registry after the steps of `ops`, taken in order.
    pub open spec fn apply_all(self, ops: Seq<RegistryOp>) -> WorldManagerView
        decreases ops.len(),
    {
        if ops.len() == 0 {
            self
        } else {
            self.apply_all(ops.drop_last()).apply(ops.last())
        }
    }

    /// One step keeps the connection registry valid and every registered
    /// world under an id handed out before; it lowers neither counter and
    /// raises each by one at most.
    pub proof fn lemma_apply_keeps_clients_wf(self, op: RegistryOp)
        requires
            self.clients_wf(),
            self.worlds_issued(),
            op is Connect ==> self.next_client_id < usize::MAX,
            op is AddWorld ==> self.next_world_id < usize::MAX,
        ensures
            self.apply(op).clients_wf(),
            self.apply(op).worlds_issued(),
            self.apply(op).max_client_count == self.max_client_count,
            self.next_client_id <= self.apply(op).next_client_id <= self.next_client_id + 1,
            self.next_world_id <= self.apply(op).next_world_id <= self.next_world_id + 1,
            op is Connect && self.has_room() ==> {
                &&& self.apply(op).next_client_id == self.next_client_id + 1
                &&& self.apply(op).clients.len() == self.clients.len() + 1
            },
            op is Connect && !self.has_room() ==> self.apply(op) == self,
    {
        let after = self.apply(op);
        match op {
            RegistryOp::Connect(client) => {
                if self.has_room() {
                    assert(!self.clients.contains_key(self.next_client_id));
                    assert forall|k: usize| #[trigger] after.clients.contains_key(k) implies k
                        < after.next_client_id && after.clients[k].id == k by {
                        if k != self.next_client_id {
                            assert(self.clients.contains_key(k));
                        }
                    }
                }
            },
            RegistryOp::Disconnect(client_id) => {
                assert forall|k: usize| #[trigger] after.clients.contains_key(k) implies k
                    < after.next_client_id && after.clients[k].id == k by {
                    assert(self.clients.contains_key(k));
                }
            },
            RegistryOp::AddWorld(world) => {
                assert forall|k: usize| #[trigger] after.worlds.contains_key(k) implies k
                    < after.next_world_id by {
                    if k != self.next_world_id {
                        assert(self.worlds.contains_key(k));
                    }
                }
            },
            RegistryOp::RemoveWorld(world_id) => {
                assert forall|k: usize| #[trigger] after.worlds.contains_key(k) implies k
                    < after.next_world_id by {
                    assert(self.worlds.contains_key(k));
                }
            },
        }
        assert forall|k: usize| #[trigger] after.worlds.contains_key(k) implies k
            < after.next_world_id by {
            if !(op is AddWorld) && !(op is RemoveWorld) {
                assert(self.worlds.contains_key(k));
            }
        }
        assert forall|k: usize| #[trigger] after.clients.contains_key(k) implies k
            < after.next_client_id && after.clients[k].id == k by {
            if !(op is Connect) && !(op is Disconnect) {
                assert(self.clients.contains_key(k));
            }
        }
    }

    /// Whatever steps a valid registry goes through, it never holds more
    /// connections than it may, and neither of its counters ever goes
    /// down.
    pub proof fn lemma_capacity_always_holds(self, ops: Seq<RegistryOp>)
        requires
            self.clients_wf(),
            self.worlds_issued(),
            self.next_client_id + ops.len() <= usize::MAX,
            self.next_world_id + ops.len() <= usize::MAX,
        ensures
            self.apply_all(ops).clients_wf(),
            self.apply_all(ops).worlds_issued(),
            self.next_world_id <= self.apply_all(ops).next_world_id <= self.next_world_id
                + ops.len(),
            self.apply_all(ops).clients.len() <= self.max_client_count,
            self.apply_all(ops).max_client_count == self.max_client_count,
            self.next_client_id <= self.apply_all(ops).next_client_id <= self.next_client_id
                + ops.len(),
        decreases ops.len(),
    {
        if ops.len() > 0 {
            self.lemma_capacity_always_holds(ops.drop_last());
            self.apply_all(ops.drop_last()).lemma_apply_keeps_clients_wf(ops.last());
        }
    }

    /// A connection id is never handed out twice: an id that an admission
    /// returns after any steps was not handed out before them, and no
    /// connection registered before or after them has it.
    pub proof fn lemma_client_ids_never_reused(self, ops: Seq<RegistryOp>, id: usize)
        requires
            self.clients_wf(),
            self.worlds_issued(),
            self.next_client_id + ops.len() <= usize::MAX,
            self.next_world_id + ops.len() <= usize::MAX,
            self.apply_all(ops).connect_result() == Ok::<usize, WorldError>(id),
        ensures
            !self.issued_client_ids().contains(id),
            !self.clients.contains_key(id),
            !self.apply_all(ops).issued_client_ids().contains(id),
            !self.apply_all(ops).clients.contains_key(id),
    {
        self.lemma_capacity_always_holds(ops);
    }

    /// A world id is never handed out twice: the id under which the next
    /// world is registered after any steps was not handed out before them,
    /// and no world registered before or after them has it.
    pub proof fn lemma_world_ids_never_reused(self, ops: Seq<RegistryOp>)
        requires
            self.clients_wf(),
            self.worlds_issued(),
            self.next_client_id + ops.len() <= usize::MAX,
            self.next_world_id + ops.len() <= usize::MAX,
        ensures
            !self.issued_world_ids().contains(self.apply_all(ops).next_world_id),
            !self.worlds.contains_key(self.apply_all(ops).next_world_id),
            !self.apply_all(ops).worlds.contains_key(self.apply_all(ops).next_world_id),
    {
        self.lemma_capacity_always_holds(ops);
    }

    /// Starting from a registry without connections, admissions alone
    /// succeed one after the other, each with the next id, until the
    /// registry is full; from then on every attempt is refused.
    pub proof fn lemma_admissions_fill_to_capacity(self, ops: Seq<RegistryOp>)
        requires
            self.clients_wf(),
            self.worlds_issued(),
            self.clients.len() == 0,
            self.next_client_id + ops.len() <= usize::MAX,
            self.next_world_id + ops.len() <= usize::MAX,
            forall|i: int| 0 <= i < ops.len() ==> (#[trigger] ops[i]) is Connect,
        ensures
            self.apply_all(ops).clients_wf(),
            ops.len() <= self.max_client_count ==> {
                &&& self.apply_all(ops).clients.len() == ops.len()
                &&& self.apply_all(ops).next_client_id == self.next_client_id + ops.len()
            },
            ops.len() < self.max_client_count ==> self.apply_all(ops).connect_result() == Ok::<
                usize,
                WorldError,
            >((self.next_client_id + ops.len()) as usize),
            ops.len() >= self.max_client_count ==> {
                &&& self.apply_all(ops).clients.len() == self.max_client_count
                &&& self.apply_all(ops).connect_result() == Err::<usize, WorldError>(
                    WorldError::TooManyClients,
                )
            },
        decreases ops.len(),
    {
        self.lemma_capacity_always_holds(ops);
        if ops.len() > 0 {
            let before = ops.drop_last();
            assert forall|i: int| 0 <= i < before.len() implies (#[trigger] before[i]) is Connect by {
                assert(before[i] == ops[i]);
            }
            self.lemma_admissions_fill_to_capacity(before);
            self.lemma_capacity_always_holds(before);
            self.apply_all(before).lemma_apply_keeps_clients_wf(ops.last());
            assert(ops.last() == ops[ops.len() - 1]);
        }
    }
}

impl View for WorldManager {
    type V = WorldManagerView;

    open spec fn view(&self) -> WorldManagerView {
        WorldManagerView {
            max_client_count: self.config.max_client_count,
            clients: self.clients@,
            next_client_id: self.next_client_id,
            worlds: self.worlds@,
            next_world_id: self.next_world_id,
        }
    }
}

impl WorldManager {
    /// The validity of a registry: its connection registry and its world
    /// registry are valid.
    pub open spec fn wf(&self) -> bool {
        &&& self@.clients_wf()
        &&& self@.worlds_wf()
    }

    /// An empty registry with the default settings.
    pub fn default() -> (manager: WorldManager)
        ensures
            manager.wf(),
            manager@.max_client_count == 100,
            manager@.clients == Map::<usize, Client>::empty(),
            manager@.worlds == Map::<usize, World>::empty(),
            manager@.next_client_id == 0,
            manager@.next_world_id == 0,
    {
        Self::new(WorldManagerConfig::default())
    }

    /// An empty registry with the given settings, which has handed out no
    /// id yet.
    pub fn new(config: WorldManagerConfig) -> (manager: WorldManager)
        ensures
            manager.wf(),
            manager.config == config,
            manager@.clients == Map::<usize, Client>::empty(),
            manager@.worlds == Map::<usize, World>::empty(),
            manager@.next_client_id == 0,
            manager@.next_world_id == 0,
    {
        WorldManager {
            config,
            next_client_id: 0,
            clients: HashMap::new(),
            next_world_id: 0,
            worlds: HashMap::new(),
        }
    }

    /// Admits a connection. While the registry is full the connection is
    /// refused with `TooManyClients` and nothing changes. Otherwise the
    /// connection becomes active under the next free id, which was never
    /// handed out before, is stored under it, and the id is returned.
    pub fn try_connect_client(&mut self, client: Client) -> (admitted: Result<usize, WorldError>)
        requires
            old(self).wf(),
            old(self)@.has_room() ==> old(self).next_client_id < usize::MAX,
        ensures
            final(self).wf(),
            admitted == old(self)@.connect_result(),
            final(self)@ == old(self)@.connect(client),
            final(self)@.clients.len() <= final(self)@.max_client_count,
            admitted is Err ==> final(self)@ == old(self)@,
            admitted matches Ok(id) ==> {
                &&& !old(self)@.issued_client_ids().contains(id)
                &&& !old(self)@.clients.contains_key(id)
                &&& final(self)@.issued_client_ids() == old(self)@.issued_client_ids().insert(id)
                &&& final(self)@.clients.len() == old(self)@.clients.len() + 1
            },
    {
        if self.clients.len() >= self.config.max_client_count {
            return Err(WorldError::TooManyClients);
        }
        let client_id: usize = self.next_client_id;
        let admitted = Client {
            id: client_id,
            state: ClientState::Active,
            player: client.player,
            world: client.world,
        };
        self.clients.insert(client_id, admitted);
        self.next_client_id = client_id + 1;
        proof {
            old(self)@.lemma_apply_keeps_clients_wf(RegistryOp::Connect(client));
            assert(self@ == old(self)@.connect(client));
            assert(self@.issued_client_ids() =~= old(self)@.issued_client_ids().insert(client_id));
            assert(!old(self)@.clients.contains_key(client_id));
        }
        Ok(client_id)
    }

    /// Takes connection `client_id` out of the registry and returns whether
    /// it was there. For an id that is not registered nothing changes. The
    /// id is not handed out again.
    pub fn disconnect_client(&mut self, client_id: usize) -> (removed: bool)
        requires
            old(self).wf(),
        ensures
            final(self).wf(),
            removed == old(self)@.clients.contains_key(client_id),
            final(self)@ == old(self)@.disconnect(client_id),
            !removed ==> final(self)@ == old(self)@,
            removed ==> final(self)@.clients.len() == old(self)@.clients.len() - 1,
            !final(self)@.clients.contains_key(client_id),
            final(self).config == old(self).config,
            final(self)@.issued_client_ids() == old(self)@.issued_client_ids(),
    {
        let removed = self.clients.remove(&client_id).is_some();
        proof {
            if !removed {
                assert(self.clients@ =~= old(self).clients@);
            }
            old(self)@.lemma_apply_keeps_clients_wf(RegistryOp::Disconnect(client_id));
            assert(self@ == old(self)@.disconnect(client_id));
            assert forall|k: usize| #[trigger] self@.worlds.contains_key(k) implies k
                < self@.next_world_id && self@.worlds[k].id == k && self@.worlds[k].wf() by {
                assert(old(self)@.worlds.contains_key(k));
            }
        }
        removed
    }

    /// Registers a world under the next free world id, which was never
    /// handed out before, sets the world's own id to it and returns it.
    pub fn add_world(&mut self, world: World) -> (world_id: usize)
        requires
            old(self).wf(),
            world.wf(),
            old(self).next_world_id < usize::MAX,
        ensures
            final(self).wf(),
            world_id == old(self)@.next_world_id,
            final(self)@ == old(self)@.with_world(world),
            final(self).config == old(self).config,
            !old(self)@.issued_world_ids().contains(world_id),
            !old(self)@.worlds.contains_key(world_id),
            final(self)@.issued_world_ids() == old(self)@.issued_world_ids().insert(world_id),
    {
        let mut world = world;
        let world_id: usize = self.next_world_id;
        let ghost given = world;
        world.id = world_id;
        proof {
            given.lemma_wf_with_id(world_id);
            assert(world == World { id: world_id, ..given });
        }
        self.worlds.insert(world_id, world);
        self.next_world_id = world_id + 1;
        proof {
            assert(self@.issued_world_ids() =~= old(self)@.issued_world_ids().insert(world_id));
            assert(!old(self)@.worlds.contains_key(world_id));
            assert forall|k: usize| #[trigger] self@.worlds.contains_key(k) implies k
                < self@.next_world_id && self@.worlds[k].id == k && self@.worlds[k].wf() by {
                if k != world_id {
                    assert(old(self)@.worlds.contains_key(k));
                }
            }
            assert forall|k: usize| #[trigger] self@.clients.contains_key(k) implies k
                < self@.next_client_id && self@.clients[k].id == k by {
                assert(old(self)@.clients.contains_key(k));
            }
        }
        world_id
    }

    /// Takes world `world_id` out of the registry and returns whether it
    /// was there. For an id that is not registered nothing changes. The id
    /// is not handed out again.
    pub fn remove_world(&mut self, world_id: usize) -> (removed: bool)
        requires
            old(self).wf(),
        ensures
            final(self).wf(),
            removed == old(self)@.worlds.contains_key(world_id),
            final(self)@ == old(self)@.without_world(world_id),
            !removed ==> final(self)@ == old(self)@,
            !final(self)@.worlds.contains_key(world_id),
            final(self).config == old(self).config,
            final(self)@.issued_world_ids() == old(self)@.issued_world_ids(),
    {
        let removed = self.worlds.remove(&world_id).is_some();
        proof {
            if !removed {
                assert(self.worlds@ =~= old(self).worlds@);
            }
            assert forall|k: usize| #[trigger] self@.worlds.contains_key(k) implies k
                < self@.next_world_id && self@.worlds[k].id == k && self@.worlds[k].wf() by {
                assert(old(self)@.worlds.contains_key(k));
            }
            assert forall|k: usize| #[trigger] self@.clients.contains_key(k) implies k
                < self@.next_client_id && self@.clients[k].id == k by {
                assert(old(self)@.clients.contains_key(k));
            }
        }
        removed
    }
}

} // verus!
