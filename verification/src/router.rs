//! The message router: delivers one envelope to every destination a
//! [`Target`] implies.
//!
//! Local targets resolve to guest-module inboxes in the local process.
//! Network targets resolve, at send time and never from a cache, against
//! the live player roster; each resolved connection is handed to the
//! transport on the channel of the requested reliability tier. A transport
//! fault on one connection never aborts delivery to the remaining
//! destinations: every destination is attempted, and the aggregate outcome
//! is the first fault in roster order, if any.

use vstd::prelude::*;

use crate::ids::EntityId;
use crate::message::{Envelope, EnvelopeView};
use crate::target::{Target, TargetView};
use crate::transport::{channel_send, Channel, TransportError};
use crate::world::{
    first_match, lemma_first_match, ModuleView, PlayerView, World, WorldView,
};

verus! {

/// Whether a player's user id matches a networked target: a broadcast
/// (`None`) matches everyone, a targeted send matches the one id.
pub open spec fn matches_target(user_id: Seq<char>, target: Option<Seq<char>>) -> bool {
    match target {
        None => true,
        Some(t) => t == user_id,
    }
}

/// The channel the transport selector picks for a reliability tier.
pub open spec fn reliability_channel(reliable: bool) -> Channel {
    if reliable {
        Channel::ReliableStream
    } else {
        Channel::Datagram
    }
}

/// How one roster entry changes under a networked send: a matching
/// player's endpoint sees one attempted send, everyone else is untouched.
pub open spec fn networked_player(
    target: Option<Seq<char>>,
    channel: Channel,
    env: EnvelopeView,
) -> spec_fn(PlayerView) -> PlayerView {
    |p: PlayerView|
        if matches_target(p.user_id, target) {
            PlayerView { connection: p.connection.after_send(channel, env), ..p }
        } else {
            p
        }
}

/// The world after a networked send has been attempted against the whole
/// (filtered) roster.
pub open spec fn after_networked(
    w: WorldView,
    target: Option<Seq<char>>,
    channel: Channel,
    env: EnvelopeView,
) -> WorldView {
    WorldView { players: w.players.map_values(networked_player(target, channel, env)), ..w }
}

/// Predicate selecting a roster entry that matches the target and whose
/// endpoint reports a transport fault.
pub open spec fn faulty_match_pred(target: Option<Seq<char>>) -> spec_fn(PlayerView) -> bool {
    |p: PlayerView| matches_target(p.user_id, target) && p.connection.fault is Some
}

/// The aggregate outcome of a networked send: the fault of the first
/// matching faulty connection in roster order, or nothing.
pub open spec fn first_fault(players: Seq<PlayerView>, target: Option<Seq<char>>) -> Option<
    Seq<char>,
> {
    let i = first_match(players, faulty_match_pred(target));
    if i >= 0 {
        players[i].connection.fault
    } else {
        None
    }
}

/// How one module changes under a local broadcast: the sender is skipped
/// exactly when `include_self` is false; every other module receives the
/// envelope at the end of its inbox.
pub open spec fn local_broadcast_module(
    sender: EntityId,
    include_self: bool,
    env: EnvelopeView,
) -> spec_fn(ModuleView) -> ModuleView {
    |m: ModuleView|
        if m.entity == sender && !include_self {
            m
        } else {
            ModuleView { inbox: m.inbox.push(env), ..m }
        }
}

/// The world after a local broadcast.
pub open spec fn after_local_broadcast(
    w: WorldView,
    sender: EntityId,
    include_self: bool,
    env: EnvelopeView,
) -> WorldView {
    WorldView {
        modules: w.modules.map_values(local_broadcast_module(sender, include_self, env)),
        ..w
    }
}

/// How one module changes under a direct local send: the envelope reaches
/// the module addressed by `dest`, or every module of the package
/// addressed by `dest`.
pub open spec fn local_direct_module(dest: EntityId, env: EnvelopeView) -> spec_fn(
    ModuleView,
) -> ModuleView {
    |m: ModuleView|
        if m.entity == dest || m.package == dest {
            ModuleView { inbox: m.inbox.push(env), ..m }
        } else {
            m
        }
}

/// The world after a direct local send.
pub open spec fn after_local_direct(w: WorldView, dest: EntityId, env: EnvelopeView) -> WorldView {
    WorldView { modules: w.modules.map_values(local_direct_module(dest, env)), ..w }
}

/// The world after one `send` call, for any target.
pub open spec fn after_send(
    w: WorldView,
    sender: EntityId,
    target: TargetView,
    name: Seq<char>,
    data: Seq<u8>,
) -> WorldView {
    let env = EnvelopeView { source: sender, name, data };
    match target {
        TargetView::LocalBroadcast(include_self) => after_local_broadcast(
            w,
            sender,
            include_self,
            env,
        ),
        TargetView::LocalDirect(id) => after_local_direct(w, id, env),
        TargetView::NetworkBroadcastUnreliable => after_networked(
            w,
            None,
            Channel::Datagram,
            env,
        ),
        TargetView::NetworkBroadcastReliable => after_networked(
            w,
            None,
            Channel::ReliableStream,
            env,
        ),
        TargetView::NetworkTargetedUnreliable(user_id) => after_networked(
            w,
            Some(user_id),
            Channel::Datagram,
            env,
        ),
        TargetView::NetworkTargetedReliable(user_id) => after_networked(
            w,
            Some(user_id),
            Channel::ReliableStream,
            env,
        ),
    }
}

/// The aggregate outcome of one `send` call: local delivery cannot fail;
/// a networked send surfaces the first matching transport fault.
pub open spec fn send_outcome(w: WorldView, target: TargetView) -> Option<Seq<char>> {
    match target {
        TargetView::LocalBroadcast(_) => None,
        TargetView::LocalDirect(_) => None,
        TargetView::NetworkBroadcastUnreliable => first_fault(w.players, None),
        TargetView::NetworkBroadcastReliable => first_fault(w.players, None),
        TargetView::NetworkTargetedUnreliable(user_id) => first_fault(w.players, Some(user_id)),
        TargetView::NetworkTargetedReliable(user_id) => first_fault(w.players, Some(user_id)),
    }
}

/// Sends one envelope to the networked destinations the target user filter
/// implies: every connected player for a broadcast, the one matching
/// player for a targeted send, nobody for an unknown user id. Resolution
/// happens here, at send time, against the live roster. Every resolved
/// endpoint is attempted; the first fault in roster order, if any, is the
/// aggregate result.
#[verifier::loop_isolation(false)]
pub fn send_networked(
    world: &mut World,
    target_user_id: Option<&String>,
    module_id: EntityId,
    name: &String,
    data: &Vec<u8>,
    reliable: bool,
) -> (r: Result<(), TransportError>)
    ensures
        final(world)@ == after_networked(
            old(world)@,
            target_user_id.deep_view(),
            reliability_channel(reliable),
            EnvelopeView { source: module_id, name: name@, data: data@ },
        ),
        r is Ok <==> first_fault(old(world)@.players, target_user_id.deep_view()) is None,
        r matches Err(e) ==> Some(e@) == first_fault(
            old(world)@.players,
            target_user_id.deep_view(),
        ),
        old(world)@.wf() ==> final(world)@.wf(),
{
    let ghost w0: WorldView = world@;
    let ghost tv: Option<Seq<char>> = target_user_id.deep_view();
    let ghost env_view = EnvelopeView { source: module_id, name: name@, data: data@ };
    let channel = if reliable {
        Channel::ReliableStream
    } else {
        Channel::Datagram
    };
    let ghost ch = reliability_channel(reliable);
    let mut err: Option<TransportError> = None;
    let ghost mut fault_idx: int = 0;
    let mut i: usize = 0;
    while i < world.players.len()
        invariant
            i <= world.players.len(),
            world@.players.len() == w0.players.len(),
            world@.modules == w0.modules,
            world@.pending_loads == w0.pending_loads,
            channel == ch,
            tv == target_user_id.deep_view(),
            forall|k: int|
                0 <= k < i ==> #[trigger] world@.players[k] == (networked_player(tv, ch, env_view))(
                    w0.players[k],
                ),
            forall|k: int|
                i <= k < w0.players.len() ==> #[trigger] world@.players[k] == w0.players[k],
            match err {
                None => forall|k: int|
                    0 <= k < i ==> !(faulty_match_pred(tv))(#[trigger] w0.players[k]),
                Some(e) => {
                    &&& 0 <= fault_idx < i
                    &&& (faulty_match_pred(tv))(w0.players[fault_idx])
                    &&& forall|k: int|
                        0 <= k < fault_idx ==> !(faulty_match_pred(tv))(#[trigger] w0.players[k])
                    &&& Some(e@) == w0.players[fault_idx].connection.fault
                },
            },
        decreases world.players.len() - i,
    {
        let ghost pre_exec: Seq<crate::world::Player> = world.players@;
        let ghost pre_view: Seq<PlayerView> = world@.players;
        let matched = match target_user_id {
            None => true,
            Some(uid) => {
                let p: &crate::world::Player = &world.players[i];
                p.user_id == *uid
            },
        };
        proof {
            assert(forall|k: int|
                0 <= k < pre_exec.len() ==> #[trigger] pre_view[k] == pre_exec[k].deep_view());
            assert(pre_view[i as int] == w0.players[i as int]);
            assert(matched == matches_target(w0.players[i as int].user_id, tv));
        }
        if matched {
            let env_i = Envelope::new(module_id, name, data);
            let ghost env_spec: Envelope = env_i;
            let send_r = channel_send(&mut world.players[i].connection, channel, env_i);
            proof {
                assert(env_spec@ == env_view);
                assert(world.players@[i as int].connection@ == pre_exec[i as int].connection@.after_send(
                    ch,
                    env_view,
                ));
                assert(world@.players[i as int] == world.players@[i as int].deep_view());
                assert(world@.players[i as int] == (networked_player(tv, ch, env_view))(
                    w0.players[i as int],
                ));
            }
            match send_r {
                Ok(_) => {
                    proof {
                        assert(w0.players[i as int].connection.fault is None);
                        assert(!(faulty_match_pred(tv))(w0.players[i as int]));
                    }
                },
                Err(e) => {
                    proof {
                        assert(w0.players[i as int].connection.fault is Some);
                        assert((faulty_match_pred(tv))(w0.players[i as int]));
                        assert(Some(e@) == w0.players[i as int].connection.fault);
                    }
                    if err.is_none() {
                        err = Some(e);
                        proof {
                            fault_idx = i as int;
                        }
                    }
                },
            }
        } else {
            proof {
                assert(world@.players[i as int] == pre_view[i as int]);
                assert(world@.players[i as int] == (networked_player(tv, ch, env_view))(
                    w0.players[i as int],
                ));
                assert(!(faulty_match_pred(tv))(w0.players[i as int]));
            }
        }
        proof {
            assert forall|k: int|
                0 <= k <= i implies #[trigger] world@.players[k] == (networked_player(
                tv,
                ch,
                env_view,
            ))(w0.players[k]) by {
                assert(world@.players[k] == world.players@[k].deep_view());
                if k < i {
                    assert(world.players@[k] == pre_exec[k]);
                    assert(pre_view[k] == pre_exec[k].deep_view());
                    assert(pre_view[k] == (networked_player(tv, ch, env_view))(w0.players[k]));
                }
            }
            assert forall|k: int|
                i < k < w0.players.len() implies #[trigger] world@.players[k] == w0.players[k] by {
                assert(world@.players[k] == world.players@[k].deep_view());
                assert(world.players@[k] == pre_exec[k]);
                assert(pre_view[k] == pre_exec[k].deep_view());
                assert(pre_view[k] == w0.players[k]);
            }
        }
        i = i + 1;
    }
    proof {
        lemma_first_match(w0.players, faulty_match_pred(tv));
        assert(world@.players =~= w0.players.map_values(networked_player(tv, ch, env_view)));
        if old(world)@.wf() {
            assert forall|a: int, b: int|
                0 <= a < b < world@.players.len() implies #[trigger] world@.players[a].entity
                != #[trigger] world@.players[b].entity by {
                assert(world@.players[a].entity == w0.players[a].entity);
                assert(world@.players[b].entity == w0.players[b].entity);
            }
            assert forall|a: int, b: int|
                0 <= a < b < world@.players.len() implies #[trigger] world@.players[a].user_id
                != #[trigger] world@.players[b].user_id by {
                assert(world@.players[a].user_id == w0.players[a].user_id);
                assert(world@.players[b].user_id == w0.players[b].user_id);
            }
        }
    }
    match err {
        None => Ok(()),
        Some(e) => Err(e),
    }
}

/// Broadcasts one envelope to every local module's inbox, skipping the
/// sender exactly when `include_self` is false. Local delivery cannot
/// fail, and delivery order follows module order in the world.
#[verifier::loop_isolation(false)]
pub fn send_local_broadcast(
    world: &mut World,
    sender: EntityId,
    include_self: bool,
    name: &String,
    data: &Vec<u8>,
)
    ensures
        final(world)@ == after_local_broadcast(
            old(world)@,
            sender,
            include_self,
            EnvelopeView { source: sender, name: name@, data: data@ },
        ),
        old(world)@.wf() ==> final(world)@.wf(),
{
    let ghost w0: WorldView = world@;
    let ghost env_view = EnvelopeView { source: sender, name: name@, data: data@ };
    let mut i: usize = 0;
    while i < world.modules.len()
        invariant
            i <= world.modules.len(),
            world@.modules.len() == w0.modules.len(),
            world@.players == w0.players,
            world@.pending_loads == w0.pending_loads,
            forall|k: int|
                0 <= k < i ==> #[trigger] world@.modules[k] == (local_broadcast_module(
                    sender,
                    include_self,
                    env_view,
                ))(w0.modules[k]),
            forall|k: int|
                i <= k < w0.modules.len() ==> #[trigger] world@.modules[k] == w0.modules[k],
        decreases world.modules.len() - i,
    {
        let ghost pre_exec: Seq<crate::world::Module> = world.modules@;
        let ghost pre_view: Seq<ModuleView> = world@.modules;
        let skip = {
            let m: &crate::world::Module = &world.modules[i];
            m.entity == sender && !include_self
        };
        proof {
            assert(forall|k: int|
                0 <= k < pre_exec.len() ==> #[trigger] pre_view[k] == pre_exec[k].deep_view());
            assert(pre_view[i as int] == w0.modules[i as int]);
        }
        if !skip {
            let env_i = Envelope::new(sender, name, data);
            let ghost env_spec: Envelope = env_i;
            world.modules[i].inbox.push(env_i);
            proof {
                assert(env_spec@ == env_view);
                assert(world.modules@[i as int].inbox@ == pre_exec[i as int].inbox@.push(env_spec));
                assert(world.modules@[i as int].entity == pre_exec[i as int].entity);
                assert(world.modules@[i as int].package == pre_exec[i as int].package);
                assert(world@.modules[i as int] == world.modules@[i as int].deep_view());
                assert forall|k: int|
                    0 <= k < world.modules@[i as int].inbox@.len() implies #[trigger] world.modules@[i as int].inbox.deep_view()[k]
                    == pre_exec[i as int].inbox.deep_view().push(env_view)[k] by {
                    assert(world.modules@[i as int].inbox.deep_view()[k]
                        == world.modules@[i as int].inbox@[k].deep_view());
                    if k < pre_exec[i as int].inbox@.len() {
                        assert(world.modules@[i as int].inbox@[k] == pre_exec[i as int].inbox@[k]);
                        assert(pre_exec[i as int].inbox.deep_view()[k] == pre_exec[i as int].inbox@[k].deep_view());
                    } else {
                        assert(world.modules@[i as int].inbox@[k] == env_spec);
                    }
                }
                assert(world@.modules[i as int].inbox =~= pre_exec[i as int].inbox.deep_view().push(
                    env_view,
                ));
                assert(pre_view[i as int] == pre_exec[i as int].deep_view());
                assert(pre_view[i as int] == w0.modules[i as int]);
                assert(world@.modules[i as int] == (local_broadcast_module(
                    sender,
                    include_self,
                    env_view,
                ))(w0.modules[i as int]));
            }
        } else {
            proof {
                assert(world@.modules[i as int] == pre_view[i as int]);
                assert(world@.modules[i as int] == (local_broadcast_module(
                    sender,
                    include_self,
                    env_view,
                ))(w0.modules[i as int]));
            }
        }
        proof {
            assert forall|k: int|
                0 <= k <= i implies #[trigger] world@.modules[k] == (local_broadcast_module(
                    sender,
                    include_self,
                    env_view,
                ))(w0.modules[k]) by {
                assert(world@.modules[k] == world.modules@[k].deep_view());
                if k < i {
                    assert(world.modules@[k] == pre_exec[k]);
                    assert(pre_view[k] == pre_exec[k].deep_view());
                    assert(pre_view[k] == (local_broadcast_module(
                    sender,
                    include_self,
                    env_view,
                ))(w0.modules[k]));
                }
            }
            assert forall|k: int|
                i < k < w0.modules.len() implies #[trigger] world@.modules[k] == w0.modules[k] by {
                assert(world@.modules[k] == world.modules@[k].deep_view());
                assert(world.modules@[k] == pre_exec[k]);
                assert(pre_view[k] == pre_exec[k].deep_view());
                assert(pre_view[k] == w0.modules[k]);
            }
        }
        i = i + 1;
    }
    proof {
        assert(world@.modules =~= w0.modules.map_values(
            local_broadcast_module(sender, include_self, env_view),
        ));
        if old(world)@.wf() {
            assert forall|a: int, b: int|
                0 <= a < b < world@.modules.len() implies #[trigger] world@.modules[a].entity
                != #[trigger] world@.modules[b].entity by {
                assert(world@.modules[a].entity == w0.modules[a].entity);
                assert(world@.modules[b].entity == w0.modules[b].entity);
            }
        }
    }
}

/// Delivers one envelope to the module addressed by `dest`, or to every
/// module of the package addressed by `dest`. An address that resolves to
/// nothing is a silent no-op, not an error.
#[verifier::loop_isolation(false)]
pub fn send_local_direct(
    world: &mut World,
    sender: EntityId,
    dest: EntityId,
    name: &String,
    data: &Vec<u8>,
)
    ensures
        final(world)@ == after_local_direct(
            old(world)@,
            dest,
            EnvelopeView { source: sender, name: name@, data: data@ },
        ),
        old(world)@.wf() ==> final(world)@.wf(),
{
    let ghost w0: WorldView = world@;
    let ghost env_view = EnvelopeView { source: sender, name: name@, data: data@ };
    let mut i: usize = 0;
    while i < world.modules.len()
        invariant
            i <= world.modules.len(),
            world@.modules.len() == w0.modules.len(),
            world@.players == w0.players,
            world@.pending_loads == w0.pending_loads,
            forall|k: int|
                0 <= k < i ==> #[trigger] world@.modules[k] == (local_direct_module(
                    dest,
                    env_view,
                ))(w0.modules[k]),
            forall|k: int|
                i <= k < w0.modules.len() ==> #[trigger] world@.modules[k] == w0.modules[k],
        decreases world.modules.len() - i,
    {
        let ghost pre_exec: Seq<crate::world::Module> = world.modules@;
        let ghost pre_view: Seq<ModuleView> = world@.modules;
        let addressed = {
            let m: &crate::world::Module = &world.modules[i];
            m.entity == dest || m.package == dest
        };
        proof {
            assert(forall|k: int|
                0 <= k < pre_exec.len() ==> #[trigger] pre_view[k] == pre_exec[k].deep_view());
            assert(pre_view[i as int] == w0.modules[i as int]);
        }
        if addressed {
            let env_i = Envelope::new(sender, name, data);
            let ghost env_spec: Envelope = env_i;
            world.modules[i].inbox.push(env_i);
            proof {
                assert(env_spec@ == env_view);
                assert(world.modules@[i as int].inbox@ == pre_exec[i as int].inbox@.push(env_spec));
                assert(world.modules@[i as int].entity == pre_exec[i as int].entity);
                assert(world.modules@[i as int].package == pre_exec[i as int].package);
                assert(world@.modules[i as int] == world.modules@[i as int].deep_view());
                assert forall|k: int|
                    0 <= k < world.modules@[i as int].inbox@.len() implies #[trigger] world.modules@[i as int].inbox.deep_view()[k]
                    == pre_exec[i as int].inbox.deep_view().push(env_view)[k] by {
                    assert(world.modules@[i as int].inbox.deep_view()[k]
                        == world.modules@[i as int].inbox@[k].deep_view());
                    if k < pre_exec[i as int].inbox@.len() {
                        assert(world.modules@[i as int].inbox@[k] == pre_exec[i as int].inbox@[k]);
                        assert(pre_exec[i as int].inbox.deep_view()[k] == pre_exec[i as int].inbox@[k].deep_view());
                    } else {
                        assert(world.modules@[i as int].inbox@[k] == env_spec);
                    }
                }
                assert(world@.modules[i as int].inbox =~= pre_exec[i as int].inbox.deep_view().push(
                    env_view,
                ));
                assert(pre_view[i as int] == pre_exec[i as int].deep_view());
                assert(pre_view[i as int] == w0.modules[i as int]);
                assert(world@.modules[i as int] == (local_direct_module(dest, env_view))(w0.modules[i as int]));
            }
        } else {
            proof {
                assert(world@.modules[i as int] == pre_view[i as int]);
                assert(world@.modules[i as int] == (local_direct_module(dest, env_view))(w0.modules[i as int]));
            }
        }
        proof {
            assert forall|k: int|
                0 <= k <= i implies #[trigger] world@.modules[k] == (local_direct_module(dest, env_view))(w0.modules[k]) by {
                assert(world@.modules[k] == world.modules@[k].deep_view());
                if k < i {
                    assert(world.modules@[k] == pre_exec[k]);
                    assert(pre_view[k] == pre_exec[k].deep_view());
                    assert(pre_view[k] == (local_direct_module(dest, env_view))(w0.modules[k]));
                }
            }
            assert forall|k: int|
                i < k < w0.modules.len() implies #[trigger] world@.modules[k] == w0.modules[k] by {
                assert(world@.modules[k] == world.modules@[k].deep_view());
                assert(world.modules@[k] == pre_exec[k]);
                assert(pre_view[k] == pre_exec[k].deep_view());
                assert(pre_view[k] == w0.modules[k]);
            }
        }
        i = i + 1;
    }
    proof {
        assert(world@.modules =~= w0.modules.map_values(local_direct_module(dest, env_view)));
        if old(world)@.wf() {
            assert forall|a: int, b: int|
                0 <= a < b < world@.modules.len() implies #[trigger] world@.modules[a].entity
                != #[trigger] world@.modules[b].entity by {
                assert(world@.modules[a].entity == w0.modules[a].entity);
                assert(world@.modules[b].entity == w0.modules[b].entity);
            }
        }
    }
}

/// Routes one `send` call: matches the target exhaustively and delivers
/// the envelope to every destination it implies. Returns the aggregate
/// outcome: `Ok` unless a networked destination's transport reported a
/// fault, and then the first such fault in roster order, after all
/// destinations were attempted.
pub fn route_send(
    world: &mut World,
    sender: EntityId,
    target: &Target,
    name: &String,
    data: &Vec<u8>,
) -> (r: Result<(), TransportError>)
    ensures
        final(world)@ == after_send(old(world)@, sender, target@, name@, data@),
        r is Ok <==> send_outcome(old(world)@, target@) is None,
        r matches Err(e) ==> Some(e@) == send_outcome(old(world)@, target@),
        old(world)@.wf() ==> final(world)@.wf(),
{
    match target {
        Target::LocalBroadcast(include_self) => {
            send_local_broadcast(world, sender, *include_self, name, data);
            Ok(())
        },
        Target::LocalDirect(id) => {
            send_local_direct(world, sender, *id, name, data);
            Ok(())
        },
        Target::NetworkBroadcastUnreliable => send_networked(
            world,
            None,
            sender,
            name,
            data,
            false,
        ),
        Target::NetworkBroadcastReliable => send_networked(world, None, sender, name, data, true),
        Target::NetworkTargetedUnreliable(user_id) => send_networked(
            world,
            Some(user_id),
            sender,
            name,
            data,
            false,
        ),
        Target::NetworkTargetedReliable(user_id) => send_networked(
            world,
            Some(user_id),
            sender,
            name,
            data,
            true,
        ),
    }
}

/// Law: a local broadcast with `include_self == false` never counts the
/// sender among its recipients, and with `include_self == true` it always
/// does. The sender's inbox is untouched in the first case and grows by
/// exactly the envelope in the second; every other module receives the
/// envelope either way.
pub proof fn law_local_broadcast_self(
    w: WorldView,
    sender: EntityId,
    include_self: bool,
    env: EnvelopeView,
)
    ensures
        after_local_broadcast(w, sender, include_self, env).modules.len() == w.modules.len(),
        forall|k: int|
            0 <= k < w.modules.len() && w.modules[k].entity == sender && !include_self
                ==> #[trigger] after_local_broadcast(w, sender, include_self, env).modules[k]
                == w.modules[k],
        forall|k: int|
            0 <= k < w.modules.len() && (w.modules[k].entity != sender || include_self)
                ==> #[trigger] after_local_broadcast(w, sender, include_self, env).modules[k].inbox
                == w.modules[k].inbox.push(env),
{
    assert forall|k: int|
        0 <= k < w.modules.len() implies #[trigger] after_local_broadcast(
        w,
        sender,
        include_self,
        env,
    ).modules[k] == (local_broadcast_module(sender, include_self, env))(w.modules[k]) by {}
}

/// Law: a targeted networked send to a user id that is not currently
/// connected succeeds with zero deliveries: the world is unchanged, and
/// the outcome carries no error.
pub proof fn law_targeted_absent_user(
    w: WorldView,
    user_id: Seq<char>,
    channel: Channel,
    env: EnvelopeView,
)
    requires
        w.player_idx_by_user(user_id) < 0,
    ensures
        after_networked(w, Some(user_id), channel, env) == w,
        first_fault(w.players, Some(user_id)) is None,
{
    lemma_first_match(w.players, crate::world::player_user_pred(user_id));
    assert forall|k: int| 0 <= k < w.players.len() implies #[trigger] w.players[k].user_id
        != user_id by {
        if w.players[k].user_id == user_id {
            assert((crate::world::player_user_pred(user_id))(w.players[k]));
        }
    }
    assert forall|k: int|
        0 <= k < w.players.len() implies #[trigger] after_networked(
        w,
        Some(user_id),
        channel,
        env,
    ).players[k] == w.players[k] by {
        assert(after_networked(w, Some(user_id), channel, env).players[k] == (networked_player(
            Some(user_id),
            channel,
            env,
        ))(w.players[k]));
        assert(!matches_target(w.players[k].user_id, Some(user_id)));
    }
    assert(after_networked(w, Some(user_id), channel, env).players =~= w.players);
    lemma_first_match(w.players, faulty_match_pred(Some(user_id)));
    if first_match(w.players, faulty_match_pred(Some(user_id))) >= 0 {
        let j = first_match(w.players, faulty_match_pred(Some(user_id)));
        assert((faulty_match_pred(Some(user_id)))(w.players[j]));
        assert(false);
    }
}

/// Law: a transport fault is confined to its connection. Within one
/// networked send, every matching player whose endpoint reports no fault
/// still has the message accepted on the selected channel, whatever
/// happened to any other connection; and the aggregate outcome is the
/// first matching fault in roster order, by definition of `first_fault`.
pub proof fn law_partial_failure(
    w: WorldView,
    target: Option<Seq<char>>,
    channel: Channel,
    env: EnvelopeView,
    k: int,
)
    requires
        0 <= k < w.players.len(),
        matches_target(w.players[k].user_id, target),
        w.players[k].connection.fault is None,
    ensures
        after_networked(w, target, channel, env).players[k].connection.queue(channel)
            == w.players[k].connection.queue(channel).push(env),
        after_networked(w, target, channel, env).players[k].connection.fault is None,
{
    assert(after_networked(w, target, channel, env).players[k] == (networked_player(
        target,
        channel,
        env,
    ))(w.players[k]));
}

/// Law: the aggregate outcome of a networked send is exactly the fault of
/// the earliest matching faulted connection in roster order.
pub proof fn law_first_fault_is_earliest(
    players: Seq<PlayerView>,
    target: Option<Seq<char>>,
    j: int,
)
    requires
        0 <= j < players.len(),
        matches_target(players[j].user_id, target),
        players[j].connection.fault is Some,
        forall|k: int|
            0 <= k < j ==> !(matches_target(#[trigger] players[k].user_id, target)
                && players[k].connection.fault is Some),
    ensures
        first_fault(players, target) == players[j].connection.fault,
{
    lemma_first_match(players, faulty_match_pred(target));
    assert((faulty_match_pred(target))(players[j]));
    assert forall|k: int| 0 <= k < j implies !(faulty_match_pred(target))(players[k]) by {
        assert(!(matches_target(players[k].user_id, target)
            && players[k].connection.fault is Some));
    }
    let fm = first_match(players, faulty_match_pred(target));
    assert(fm != -1);
    assert(fm == j);
}

/// Law: the reliable channel keeps send order per connection. Two
/// networked sends, one after the other, leave a matching fault-free
/// player's selected channel with the two envelopes appended in send
/// order.
pub proof fn law_channel_keeps_send_order(
    w: WorldView,
    target: Option<Seq<char>>,
    channel: Channel,
    env1: EnvelopeView,
    env2: EnvelopeView,
    k: int,
)
    requires
        0 <= k < w.players.len(),
        matches_target(w.players[k].user_id, target),
        w.players[k].connection.fault is None,
    ensures
        after_networked(after_networked(w, target, channel, env1), target, channel, env2).players[
            k
        ].connection.queue(channel) == w.players[k].connection.queue(channel).push(env1).push(
            env2,
        ),
{
    let w1 = after_networked(w, target, channel, env1);
    assert(w1.players[k] == (networked_player(target, channel, env1))(w.players[k]));
    assert(w1.players[k].connection.queue(channel) == w.players[k].connection.queue(channel).push(
        env1,
    ));
    assert(w1.players[k].connection.fault is None);
    assert(w1.players[k].user_id == w.players[k].user_id);
    let w2 = after_networked(w1, target, channel, env2);
    assert(w2.players[k] == (networked_player(target, channel, env2))(w1.players[k]));
}

} // verus!
