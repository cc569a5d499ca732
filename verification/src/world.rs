//! The simulation world, as the bridge reads and writes it.
//!
//! The world is the single source of simulation truth. The bridge touches
//! exactly this much of it: the roster of connected players (each with a
//! user id, a transport endpoint and two raw-input snapshots), the loaded
//! guest modules (each with a package and an inbox of delivered messages),
//! and the queue of package-load requests handed to the package-resolution
//! collaborator.

use vstd::prelude::*;
use vstd::pervasive::VecAdditionalExecFns;

use crate::ids::EntityId;
use crate::input::{RawInput, RawInputView};
use crate::message::EnvelopeView;
use crate::transport::{Connection, ConnectionView};

verus! {

/// Index of the first element of `s` satisfying `p`, or `-1` if none does.
pub open spec fn first_match<A>(s: Seq<A>, p: spec_fn(A) -> bool) -> int
    decreases s.len(),
{
    if s.len() == 0 {
        -1
    } else if p(s[0]) {
        0
    } else {
        let rest = first_match(s.drop_first(), p);
        if rest < 0 {
            -1
        } else {
            rest + 1
        }
    }
}

/// What `first_match` returns: `-1` exactly when nothing matches, and
/// otherwise the position of the first match.
pub proof fn lemma_first_match<A>(s: Seq<A>, p: spec_fn(A) -> bool)
    ensures
        first_match(s, p) == -1 || 0 <= first_match(s, p) < s.len(),
        first_match(s, p) == -1 ==> forall|k: int| 0 <= k < s.len() ==> !p(s[k]),
        first_match(s, p) >= 0 ==> p(s[first_match(s, p)]),
        first_match(s, p) >= 0 ==> forall|k: int| 0 <= k < first_match(s, p) ==> !p(s[k]),
    decreases s.len(),
{
    if s.len() > 0 && !p(s[0]) {
        lemma_first_match(s.drop_first(), p);
        let rest = first_match(s.drop_first(), p);
        if rest < 0 {
            assert forall|k: int| 0 <= k < s.len() implies !p(s[k]) by {
                if k > 0 {
                    assert(s.drop_first()[k - 1] == s[k]);
                    assert(!p(s.drop_first()[k - 1]));
                }
            }
        } else {
            assert(s.drop_first()[rest] == s[rest + 1]);
            assert(p(s[rest + 1]));
            assert forall|k: int| 0 <= k < rest + 1 implies !p(s[k]) by {
                if k > 0 {
                    assert(s.drop_first()[k - 1] == s[k]);
                    assert(!p(s.drop_first()[k - 1]));
                }
            }
        }
    }
}

/// Predicate selecting the player that carries this entity.
pub open spec fn player_entity_pred(entity: EntityId) -> spec_fn(PlayerView) -> bool {
    |p: PlayerView| p.entity == entity
}

/// Predicate selecting the player that carries this user id.
pub open spec fn player_user_pred(user_id: Seq<char>) -> spec_fn(PlayerView) -> bool {
    |p: PlayerView| p.user_id == user_id
}

/// Predicate selecting the module that carries this entity.
pub open spec fn module_entity_pred(entity: EntityId) -> spec_fn(ModuleView) -> bool {
    |m: ModuleView| m.entity == entity
}

/// One connected player: an entity carrying a user id, the endpoint the
/// networking layer associates with it, and the two retained raw-input
/// snapshots.
#[derive(PartialEq, Eq, Debug)]
pub struct Player {
    /// The player entity.
    pub entity: EntityId,
    /// The user id the roster is keyed by.
    pub user_id: String,
    /// The transport endpoint for this player, borrowed from the
    /// networking layer for the duration of one send.
    pub connection: Connection,
    /// The current raw-input snapshot, if one was ingested this session.
    pub input: Option<RawInput>,
    /// The snapshot from the previous tick.
    pub prev_input: Option<RawInput>,
}

/// Mathematical model of a [`Player`].
pub struct PlayerView {
    pub entity: EntityId,
    pub user_id: Seq<char>,
    pub connection: ConnectionView,
    pub input: Option<RawInputView>,
    pub prev_input: Option<RawInputView>,
}

impl View for Player {
    type V = PlayerView;

    open spec fn view(&self) -> PlayerView {
        PlayerView {
            entity: self.entity,
            user_id: self.user_id@,
            connection: self.connection@,
            input: self.input.deep_view(),
            prev_input: self.prev_input.deep_view(),
        }
    }
}

impl DeepView for Player {
    type V = PlayerView;

    open spec fn deep_view(&self) -> PlayerView {
        self.view()
    }
}

/// One loaded guest module: its identity, the package it belongs to, and
/// the messages delivered to it, in delivery order.
#[derive(PartialEq, Eq, Debug)]
pub struct Module {
    /// The module entity.
    pub entity: EntityId,
    /// The package the module was loaded from.
    pub package: EntityId,
    /// Messages delivered to this module, oldest first.
    pub inbox: Vec<crate::message::Envelope>,
}

/// Mathematical model of a [`Module`].
pub struct ModuleView {
    pub entity: EntityId,
    pub package: EntityId,
    pub inbox: Seq<EnvelopeView>,
}

impl View for Module {
    type V = ModuleView;

    open spec fn view(&self) -> ModuleView {
        ModuleView {
            entity: self.entity,
            package: self.package,
            inbox: self.inbox.deep_view(),
        }
    }
}

impl DeepView for Module {
    type V = ModuleView;

    open spec fn deep_view(&self) -> ModuleView {
        self.view()
    }
}

/// The world, restricted to what the bridge reads and writes.
#[derive(PartialEq, Eq, Debug)]
pub struct World {
    /// Currently connected players, in roster order.
    pub players: Vec<Player>,
    /// Currently loaded guest modules, in load order.
    pub modules: Vec<Module>,
    /// Package URLs handed to the package-resolution collaborator and not
    /// yet drained by it.
    pub pending_loads: Vec<String>,
}

/// Mathematical model of the [`World`].
pub struct WorldView {
    pub players: Seq<PlayerView>,
    pub modules: Seq<ModuleView>,
    pub pending_loads: Seq<Seq<char>>,
}

impl View for World {
    type V = WorldView;

    open spec fn view(&self) -> WorldView {
        WorldView {
            players: self.players.deep_view(),
            modules: self.modules.deep_view(),
            pending_loads: self.pending_loads.deep_view(),
        }
    }
}

impl WorldView {
    /// Roster position of the player entity, or `-1` if not connected.
    pub open spec fn player_idx(self, entity: EntityId) -> int {
        first_match(self.players, player_entity_pred(entity))
    }

    /// Roster position of the player with this user id, or `-1`.
    pub open spec fn player_idx_by_user(self, user_id: Seq<char>) -> int {
        first_match(self.players, player_user_pred(user_id))
    }

    /// Position of the module entity, or `-1` if not loaded.
    pub open spec fn module_idx(self, entity: EntityId) -> int {
        first_match(self.modules, module_entity_pred(entity))
    }

    /// Whether the entity is a connected player.
    pub open spec fn has_player(self, entity: EntityId) -> bool {
        self.player_idx(entity) >= 0
    }

    /// Whether the entity is a loaded module.
    pub open spec fn has_module(self, entity: EntityId) -> bool {
        self.module_idx(entity) >= 0
    }

    /// The current raw-input snapshot of the player entity: absent if the
    /// entity is not a connected player or no snapshot was ingested yet.
    pub open spec fn raw_input(self, entity: EntityId) -> Option<RawInputView> {
        if self.player_idx(entity) >= 0 {
            self.players[self.player_idx(entity)].input
        } else {
            None
        }
    }

    /// The previous-tick snapshot, under the same absence rules.
    pub open spec fn prev_raw_input(self, entity: EntityId) -> Option<RawInputView> {
        if self.player_idx(entity) >= 0 {
            self.players[self.player_idx(entity)].prev_input
        } else {
            None
        }
    }

    /// Well-formedness: entities and user ids identify at most one player,
    /// and entities identify at most one module.
    pub open spec fn wf(self) -> bool {
        &&& forall|i: int, j: int|
            0 <= i < j < self.players.len() ==> #[trigger] self.players[i].entity
                != #[trigger] self.players[j].entity
        &&& forall|i: int, j: int|
            0 <= i < j < self.players.len() ==> #[trigger] self.players[i].user_id
                != #[trigger] self.players[j].user_id
        &&& forall|i: int, j: int|
            0 <= i < j < self.modules.len() ==> #[trigger] self.modules[i].entity
                != #[trigger] self.modules[j].entity
    }
}

impl World {
    /// An empty world: nobody connected, nothing loaded.
    pub fn new() -> (w: World)
        ensures
            w@.players.len() == 0,
            w@.modules.len() == 0,
            w@.pending_loads.len() == 0,
            w@.wf(),
    {
        let w = World { players: Vec::new(), modules: Vec::new(), pending_loads: Vec::new() };
        proof {
            assert(w.players.deep_view() =~= Seq::<PlayerView>::empty());
            assert(w.modules.deep_view() =~= Seq::<ModuleView>::empty());
            assert(w.pending_loads.deep_view() =~= Seq::<Seq<char>>::empty());
        }
        w
    }

    /// Position of the player entity in the roster, if connected.
    pub fn find_player(&self, entity: EntityId) -> (r: Option<usize>)
        ensures
            r is Some <==> self@.player_idx(entity) >= 0,
            r matches Some(i) ==> i as int == self@.player_idx(entity) && i < self@.players.len(),
    {
        let mut i: usize = 0;
        while i < self.players.len()
            invariant
                i <= self.players.len(),
                forall|k: int| 0 <= k < i ==> #[trigger] self@.players[k].entity != entity,
            decreases self.players.len() - i,
        {
            let p: &Player = &self.players[i];
            if p.entity == entity {
                proof {
                    lemma_first_match(self@.players, player_entity_pred(entity));
                    assert((player_entity_pred(entity))(self@.players[i as int]));
                    assert forall|k: int| 0 <= k < i implies !(player_entity_pred(entity))(
                        self@.players[k],
                    ) by {
                        assert(self@.players[k].entity != entity);
                    }
                }
                return Some(i);
            }
            i = i + 1;
        }
        proof {
            lemma_first_match(self@.players, player_entity_pred(entity));
            assert forall|k: int| 0 <= k < self@.players.len() implies !(player_entity_pred(
                entity,
            ))(self@.players[k]) by {
                assert(self@.players[k].entity != entity);
            }
        }
        None
    }

    /// Roster position of the player with this user id, if connected.
    pub fn find_player_by_user(&self, user_id: &String) -> (r: Option<usize>)
        ensures
            r is Some <==> self@.player_idx_by_user(user_id@) >= 0,
            r matches Some(i) ==> i as int == self@.player_idx_by_user(user_id@) && i
                < self@.players.len(),
    {
        let mut i: usize = 0;
        while i < self.players.len()
            invariant
                i <= self.players.len(),
                forall|k: int| 0 <= k < i ==> #[trigger] self@.players[k].user_id != user_id@,
            decreases self.players.len() - i,
        {
            let p: &Player = &self.players[i];
            if p.user_id == *user_id {
                proof {
                    lemma_first_match(self@.players, player_user_pred(user_id@));
                    assert((player_user_pred(user_id@))(self@.players[i as int]));
                    assert forall|k: int| 0 <= k < i implies !(player_user_pred(user_id@))(
                        self@.players[k],
                    ) by {
                        assert(self@.players[k].user_id != user_id@);
                    }
                }
                return Some(i);
            }
            i = i + 1;
        }
        proof {
            lemma_first_match(self@.players, player_user_pred(user_id@));
            assert forall|k: int| 0 <= k < self@.players.len() implies !(player_user_pred(
                user_id@,
            ))(self@.players[k]) by {
                assert(self@.players[k].user_id != user_id@);
            }
        }
        None
    }

    /// Position of the module entity, if loaded.
    pub fn find_module(&self, entity: EntityId) -> (r: Option<usize>)
        ensures
            r is Some <==> self@.module_idx(entity) >= 0,
            r matches Some(i) ==> i as int == self@.module_idx(entity) && i < self@.modules.len(),
    {
        let mut i: usize = 0;
        while i < self.modules.len()
            invariant
                i <= self.modules.len(),
                forall|k: int| 0 <= k < i ==> #[trigger] self@.modules[k].entity != entity,
            decreases self.modules.len() - i,
        {
            let m: &Module = &self.modules[i];
            if m.entity == entity {
                proof {
                    lemma_first_match(self@.modules, module_entity_pred(entity));
                    assert((module_entity_pred(entity))(self@.modules[i as int]));
                    assert forall|k: int| 0 <= k < i implies !(module_entity_pred(entity))(
                        self@.modules[k],
                    ) by {
                        assert(self@.modules[k].entity != entity);
                    }
                }
                return Some(i);
            }
            i = i + 1;
        }
        proof {
            lemma_first_match(self@.modules, module_entity_pred(entity));
            assert forall|k: int| 0 <= k < self@.modules.len() implies !(module_entity_pred(
                entity,
            ))(self@.modules[k]) by {
                assert(self@.modules[k].entity != entity);
            }
        }
        None
    }

    /// Number of connected players.
    pub fn player_count(&self) -> (n: usize)
        ensures
            n == self@.players.len(),
    {
        self.players.len()
    }

    /// Connects a player: adds it to the roster with a fresh endpoint and
    /// no input snapshots. Refused if the entity or the user id is already
    /// on the roster.
    pub fn connect_player(&mut self, entity: EntityId, user_id: String, connection_id: u64) -> (added:
        bool)
        ensures
            added <==> (old(self)@.player_idx(entity) < 0 && old(self)@.player_idx_by_user(
                user_id@,
            ) < 0),
            added ==> final(self)@ == (WorldView {
                players: old(self)@.players.push(
                    PlayerView {
                        entity,
                        user_id: user_id@,
                        connection: ConnectionView {
                            id: connection_id,
                            fault: None,
                            reliable: Seq::<EnvelopeView>::empty(),
                            unreliable: Seq::<EnvelopeView>::empty(),
                            datagrams: Seq::<EnvelopeView>::empty(),
                        },
                        input: None,
                        prev_input: None,
                    },
                ),
                ..old(self)@
            }),
            !added ==> final(self)@ == old(self)@,
            old(self)@.wf() ==> final(self)@.wf(),
    {
        let dup_entity = self.find_player(entity);
        let dup_user = self.find_player_by_user(&user_id);
        if dup_entity.is_some() || dup_user.is_some() {
            return false;
        }
        proof {
            lemma_first_match(self@.players, player_entity_pred(entity));
            lemma_first_match(self@.players, player_user_pred(user_id@));
        }
        let player = Player {
            entity,
            user_id,
            connection: Connection::new(connection_id),
            input: None,
            prev_input: None,
        };
        let ghost prior: Seq<PlayerView> = self.players.deep_view();
        let ghost added_view = player.deep_view();
        self.players.push(player);
        proof {
            assert(self.players.deep_view() =~= prior.push(added_view));
        }
        true
    }

    /// Disconnects the player with this user id, removing it from the
    /// roster. Absence is not an error: the world is left unchanged.
    pub fn disconnect_player(&mut self, user_id: &String) -> (removed: bool)
        ensures
            removed <==> old(self)@.player_idx_by_user(user_id@) >= 0,
            removed ==> final(self)@ == (WorldView {
                players: old(self)@.players.remove(old(self)@.player_idx_by_user(user_id@)),
                ..old(self)@
            }),
            !removed ==> final(self)@ == old(self)@,
            old(self)@.wf() ==> final(self)@.wf(),
    {
        match self.find_player_by_user(user_id) {
            None => false,
            Some(i) => {
                let ghost prior: Seq<PlayerView> = self.players.deep_view();
                let _ = self.players.remove(i);
                proof {
                    prior.remove_ensures(i as int);
                    assert(self.players.deep_view() =~= prior.remove(i as int));
                    if old(self)@.wf() {
                        assert forall|a: int, b: int|
                            0 <= a < b < self.players.deep_view().len() implies #[trigger] self.players.deep_view()[a].entity
                            != #[trigger] self.players.deep_view()[b].entity by {
                            assert(self.players.deep_view()[a] == if a < i as int {
                                prior[a]
                            } else {
                                prior[a + 1]
                            });
                            assert(self.players.deep_view()[b] == if b < i as int {
                                prior[b]
                            } else {
                                prior[b + 1]
                            });
                        }
                        assert forall|a: int, b: int|
                            0 <= a < b < self.players.deep_view().len() implies #[trigger] self.players.deep_view()[a].user_id
                            != #[trigger] self.players.deep_view()[b].user_id by {
                            assert(self.players.deep_view()[a] == if a < i as int {
                                prior[a]
                            } else {
                                prior[a + 1]
                            });
                            assert(self.players.deep_view()[b] == if b < i as int {
                                prior[b]
                            } else {
                                prior[b + 1]
                            });
                        }
                    }
                }
                true
            },
        }
    }

    /// Loads a guest module. Refused if the module entity is already
    /// present.
    pub fn load_module(&mut self, entity: EntityId, package: EntityId) -> (added: bool)
        ensures
            added <==> old(self)@.module_idx(entity) < 0,
            added ==> final(self)@ == (WorldView {
                modules: old(self)@.modules.push(
                    ModuleView { entity, package, inbox: Seq::<EnvelopeView>::empty() },
                ),
                ..old(self)@
            }),
            !added ==> final(self)@ == old(self)@,
            old(self)@.wf() ==> final(self)@.wf(),
    {
        if self.find_module(entity).is_some() {
            return false;
        }
        proof {
            lemma_first_match(self@.modules, module_entity_pred(entity));
        }
        let module = Module { entity, package, inbox: Vec::new() };
        let ghost prior: Seq<ModuleView> = self.modules.deep_view();
        let ghost added_view = module.deep_view();
        self.modules.push(module);
        proof {
            assert(added_view.inbox =~= Seq::<EnvelopeView>::empty());
            assert(self.modules.deep_view() =~= prior.push(added_view));
        }
        true
    }

    /// Unloads a guest module, dropping its inbox. Absence is not an
    /// error.
    pub fn unload_module(&mut self, entity: EntityId) -> (removed: bool)
        ensures
            removed <==> old(self)@.module_idx(entity) >= 0,
            removed ==> final(self)@ == (WorldView {
                modules: old(self)@.modules.remove(old(self)@.module_idx(entity)),
                ..old(self)@
            }),
            !removed ==> final(self)@ == old(self)@,
            old(self)@.wf() ==> final(self)@.wf(),
    {
        match self.find_module(entity) {
            None => false,
            Some(i) => {
                let ghost prior: Seq<ModuleView> = self.modules.deep_view();
                let _ = self.modules.remove(i);
                proof {
                    prior.remove_ensures(i as int);
                    assert(self.modules.deep_view() =~= prior.remove(i as int));
                    if old(self)@.wf() {
                        assert forall|a: int, b: int|
                            0 <= a < b < self.modules.deep_view().len() implies #[trigger] self.modules.deep_view()[a].entity
                            != #[trigger] self.modules.deep_view()[b].entity by {
                            assert(self.modules.deep_view()[a] == if a < i as int {
                                prior[a]
                            } else {
                                prior[a + 1]
                            });
                            assert(self.modules.deep_view()[b] == if b < i as int {
                                prior[b]
                            } else {
                                prior[b + 1]
                            });
                        }
                    }
                }
                true
            },
        }
    }

    /// Ingests a raw-input snapshot for one player, as the input-ingestion
    /// system does at the start of a tick: the current snapshot becomes the
    /// previous one and the new snapshot replaces it wholesale.
    pub fn ingest_input(&mut self, player: EntityId, input: RawInput) -> (found: bool)
        ensures
            found <==> old(self)@.player_idx(player) >= 0,
            found ==> final(self)@ == (WorldView {
                players: old(self)@.players.update(
                    old(self)@.player_idx(player),
                    PlayerView {
                        input: Some(input@),
                        prev_input: old(self)@.players[old(self)@.player_idx(player)].input,
                        ..old(self)@.players[old(self)@.player_idx(player)]
                    },
                ),
                ..old(self)@
            }),
            !found ==> final(self)@ == old(self)@,
            old(self)@.wf() ==> final(self)@.wf(),
    {
        match self.find_player(player) {
            None => false,
            Some(i) => {
                let ghost prior: Seq<PlayerView> = self.players.deep_view();
                let current: &Player = &self.players[i];
                let kept = match &current.input {
                    Some(r) => Some(r.duplicate()),
                    None => None,
                };
                let user_id = current.user_id.clone();
                let entity = current.entity;
                let connection = current.connection.duplicate();
                let replacement = Player {
                    entity,
                    user_id,
                    connection,
                    input: Some(input),
                    prev_input: kept,
                };
                let ghost replacement_view = replacement.deep_view();
                self.players.set(i, replacement);
                proof {
                    assert(replacement_view == (PlayerView {
                        input: Some(input@),
                        prev_input: prior[i as int].input,
                        ..prior[i as int]
                    }));
                    assert(self.players.deep_view() =~= prior.update(i as int, replacement_view));
                    if old(self)@.wf() {
                        assert(forall|k: int|
                            0 <= k < self.players.deep_view().len() ==> #[trigger] self.players.deep_view()[k].entity == prior[k].entity
                                && #[trigger] self.players.deep_view()[k].user_id == prior[k].user_id);
                    }
                }
                true
            },
        }
    }

    /// The current raw-input snapshot for the player entity. Absent (not an
    /// error) if the entity is not a connected player or no snapshot was
    /// ingested this session. A pure query: two reads of the same world
    /// return the same snapshot.
    pub fn get_raw_input(&self, player: EntityId) -> (r: Option<&RawInput>)
        ensures
            r.deep_view() == self@.raw_input(player),
    {
        match self.find_player(player) {
            None => None,
            Some(i) => {
                let p: &Player = &self.players[i];
                match &p.input {
                    Some(inp) => Some(inp),
                    None => None,
                }
            },
        }
    }

    /// The previous-tick raw-input snapshot, under the same absence rules
    /// as [`World::get_raw_input`].
    pub fn get_prev_raw_input(&self, player: EntityId) -> (r: Option<&RawInput>)
        ensures
            r.deep_view() == self@.prev_raw_input(player),
    {
        match self.find_player(player) {
            None => None,
            Some(i) => {
                let p: &Player = &self.players[i];
                match &p.prev_input {
                    Some(inp) => Some(inp),
                    None => None,
                }
            },
        }
    }

    /// Queues a package URL for the package-resolution collaborator.
    pub fn request_package_load(&mut self, url: String)
        ensures
            final(self)@ == (WorldView {
                pending_loads: old(self)@.pending_loads.push(url@),
                ..old(self)@
            }),
            old(self)@.wf() ==> final(self)@.wf(),
    {
        let ghost prior: Seq<Seq<char>> = self.pending_loads.deep_view();
        let ghost url_view = url@;
        self.pending_loads.push(url);
        proof {
            assert(self.pending_loads.deep_view() =~= prior.push(url_view));
        }
    }

    /// Hands the queued package URLs to the package-resolution
    /// collaborator, in request order, and empties the queue.
    pub fn drain_pending_loads(&mut self) -> (urls: Vec<String>)
        ensures
            urls.deep_view() == old(self)@.pending_loads,
            final(self)@ == (WorldView {
                pending_loads: Seq::<Seq<char>>::empty(),
                ..old(self)@
            }),
            old(self)@.wf() ==> final(self)@.wf(),
    {
        let mut urls: Vec<String> = Vec::new();
        let mut i: usize = 0;
        while i < self.pending_loads.len()
            invariant
                i <= self.pending_loads.len(),
                self@ == old(self)@,
                urls.deep_view() == old(self)@.pending_loads.subrange(0, i as int),
            decreases self.pending_loads.len() - i,
        {
            let u: &String = &self.pending_loads[i];
            let ghost pre: Seq<Seq<char>> = urls.deep_view();
            urls.push(u.clone());
            proof {
                assert(urls.deep_view() =~= pre.push(u@));
                assert(urls.deep_view() =~= old(self)@.pending_loads.subrange(0, i + 1 as int));
            }
            i = i + 1;
        }
        self.pending_loads = Vec::new();
        proof {
            assert(urls.deep_view() =~= old(self)@.pending_loads);
            assert(self.pending_loads.deep_view() =~= Seq::<Seq<char>>::empty());
        }
        urls
    }
}

} // verus!
