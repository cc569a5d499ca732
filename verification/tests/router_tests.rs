use host_bridge::ids::EntityId;
use host_bridge::router::{route_send, send_local_direct, send_networked};
use host_bridge::target::Target;
use host_bridge::world::World;

fn module(n: u64) -> EntityId {
    EntityId::new(1, n, 0)
}

fn player(n: u64) -> EntityId {
    EntityId::new(2, n, 0)
}

fn package(n: u64) -> EntityId {
    EntityId::new(3, n, 0)
}

fn world_with_modules() -> World {
    let mut w = World::new();
    assert!(w.load_module(module(1), package(1)));
    assert!(w.load_module(module(2), package(1)));
    assert!(w.load_module(module(3), package(2)));
    w
}

#[test]
fn local_broadcast_without_self_skips_sender() {
    let mut w = world_with_modules();
    let r = route_send(
        &mut w,
        module(2),
        &Target::LocalBroadcast(false),
        &"ping".to_string(),
        &vec![7u8],
    );
    assert!(r.is_ok());
    assert_eq!(w.modules[0].inbox.len(), 1);
    assert_eq!(w.modules[1].inbox.len(), 0);
    assert_eq!(w.modules[2].inbox.len(), 1);
    assert_eq!(w.modules[0].inbox[0].source, module(2));
    assert_eq!(w.modules[0].inbox[0].name, "ping".to_string());
    assert_eq!(w.modules[0].inbox[0].data, vec![7u8]);
}

#[test]
fn local_broadcast_with_self_includes_sender() {
    let mut w = world_with_modules();
    let r = route_send(
        &mut w,
        module(2),
        &Target::LocalBroadcast(true),
        &"ping".to_string(),
        &vec![7u8],
    );
    assert!(r.is_ok());
    assert_eq!(w.modules[0].inbox.len(), 1);
    assert_eq!(w.modules[1].inbox.len(), 1);
    assert_eq!(w.modules[2].inbox.len(), 1);
}

#[test]
fn local_direct_reaches_module_or_package() {
    let mut w = world_with_modules();
    send_local_direct(&mut w, module(1), module(3), &"m".to_string(), &vec![]);
    assert_eq!(w.modules[0].inbox.len(), 0);
    assert_eq!(w.modules[1].inbox.len(), 0);
    assert_eq!(w.modules[2].inbox.len(), 1);
    // Addressing a package reaches every module of that package.
    send_local_direct(&mut w, module(3), package(1), &"p".to_string(), &vec![]);
    assert_eq!(w.modules[0].inbox.len(), 1);
    assert_eq!(w.modules[1].inbox.len(), 1);
    assert_eq!(w.modules[2].inbox.len(), 1);
}

#[test]
fn targeted_send_to_unknown_user_is_silent_success() {
    let mut w = World::new();
    assert!(w.connect_player(player(1), "a".to_string(), 10));
    let r = route_send(
        &mut w,
        module(1),
        &Target::NetworkTargetedReliable("nobody".to_string()),
        &"msg".to_string(),
        &vec![1u8],
    );
    assert!(r.is_ok());
    assert_eq!(w.players[0].connection.reliable.len(), 0);
    assert_eq!(w.players[0].connection.unreliable.len(), 0);
    assert_eq!(w.players[0].connection.datagrams.len(), 0);
}

#[test]
fn targeted_reliable_reaches_only_the_named_player() {
    let mut w = World::new();
    assert!(w.connect_player(player(1), "a".to_string(), 10));
    assert!(w.connect_player(player(2), "b".to_string(), 11));
    let r = route_send(
        &mut w,
        module(5),
        &Target::NetworkTargetedReliable("b".to_string()),
        &"msg".to_string(),
        &vec![1u8, 2, 3],
    );
    assert!(r.is_ok());
    // Player A receives nothing on any channel.
    assert_eq!(w.players[0].connection.reliable.len(), 0);
    assert_eq!(w.players[0].connection.unreliable.len(), 0);
    assert_eq!(w.players[0].connection.datagrams.len(), 0);
    // Player B receives exactly the envelope, on the reliable channel.
    assert_eq!(w.players[1].connection.reliable.len(), 1);
    assert_eq!(w.players[1].connection.unreliable.len(), 0);
    assert_eq!(w.players[1].connection.datagrams.len(), 0);
    let env = &w.players[1].connection.reliable[0];
    assert_eq!(env.source, module(5));
    assert_eq!(env.name, "msg".to_string());
    assert_eq!(env.data, vec![1u8, 2, 3]);
}

#[test]
fn broadcast_unreliable_uses_datagram_channel() {
    let mut w = World::new();
    assert!(w.connect_player(player(1), "a".to_string(), 10));
    assert!(w.connect_player(player(2), "b".to_string(), 11));
    let r = route_send(
        &mut w,
        module(1),
        &Target::NetworkBroadcastUnreliable,
        &"u".to_string(),
        &vec![9u8],
    );
    assert!(r.is_ok());
    for p in &w.players {
        assert_eq!(p.connection.datagrams.len(), 1);
        assert_eq!(p.connection.reliable.len(), 0);
        assert_eq!(p.connection.unreliable.len(), 0);
    }
}

#[test]
fn broadcast_partial_failure_attempts_all_and_reports_first_error() {
    let mut w = World::new();
    assert!(w.connect_player(player(1), "a".to_string(), 10));
    assert!(w.connect_player(player(2), "b".to_string(), 11));
    assert!(w.connect_player(player(3), "c".to_string(), 12));
    w.players[1].connection.set_fault("peer closed".to_string());
    let r = send_networked(
        &mut w,
        None,
        module(1),
        &"msg".to_string(),
        &vec![4u8],
        true,
    );
    // The second connection's error is the aggregate outcome...
    let err = r.unwrap_err();
    assert_eq!(err.message, "peer closed".to_string());
    // ...and the third connection was still attempted and received the message.
    assert_eq!(w.players[0].connection.reliable.len(), 1);
    assert_eq!(w.players[1].connection.reliable.len(), 0);
    assert_eq!(w.players[2].connection.reliable.len(), 1);
}

#[test]
fn roster_is_resolved_at_send_time() {
    let mut w = World::new();
    assert!(w.connect_player(player(1), "a".to_string(), 10));
    let r = route_send(
        &mut w,
        module(1),
        &Target::NetworkTargetedUnreliable("b".to_string()),
        &"m".to_string(),
        &vec![],
    );
    assert!(r.is_ok());
    assert_eq!(w.players[0].connection.datagrams.len(), 0);
    // B connects afterwards; a new send resolves against the new roster.
    assert!(w.connect_player(player(2), "b".to_string(), 11));
    let r = route_send(
        &mut w,
        module(1),
        &Target::NetworkTargetedUnreliable("b".to_string()),
        &"m".to_string(),
        &vec![],
    );
    assert!(r.is_ok());
    assert_eq!(w.players[1].connection.datagrams.len(), 1);
}
