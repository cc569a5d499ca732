use host_bridge::bindings::{deliver_response_shared, new_shared_world, Bindings};
use host_bridge::http::package_response;
use host_bridge::ids::EntityId;
use host_bridge::input::{MouseButton, RawInput};
use host_bridge::target::Target;
use host_bridge::world::World;

fn module(n: u64) -> EntityId {
    EntityId::new(1, n, 0)
}

fn player(n: u64) -> EntityId {
    EntityId::new(2, n, 0)
}

fn populated_world() -> World {
    let mut w = World::new();
    assert!(w.load_module(module(1), EntityId::new(3, 1, 0)));
    assert!(w.load_module(module(2), EntityId::new(3, 1, 0)));
    assert!(w.connect_player(player(1), "a".to_string(), 10));
    assert!(w.connect_player(player(2), "b".to_string(), 11));
    w
}

#[test]
fn concurrent_read_scopes_do_not_block_each_other() {
    let shared = new_shared_world(populated_world());
    let bindings = Bindings::new(shared.clone(), module(1));
    // Two read-scoped accesses held at the same time: if one blocked the
    // other, this test would hang rather than pass.
    let h1 = bindings.world();
    let h2 = bindings.world();
    let w1 = h1.borrow();
    let w2 = h2.borrow();
    assert_eq!(w1.player_count(), 2);
    assert_eq!(w2.player_count(), 2);
    h1.release_read();
    h2.release_read();
}

#[test]
fn write_scope_works_after_readers_release() {
    let shared = new_shared_world(populated_world());
    let mut bindings = Bindings::new(shared.clone(), module(1));
    let h = bindings.world();
    assert_eq!(h.borrow().player_count(), 2);
    h.release_read();
    // The write-scoped send proceeds once no read scope is outstanding.
    let r = bindings.send(
        Target::NetworkTargetedReliable("b".to_string()),
        "msg".to_string(),
        vec![1, 2, 3],
    );
    assert!(r.is_ok());
    let h = bindings.world();
    {
        let w = h.borrow();
        assert_eq!(w.players[1].connection.reliable.len(), 1);
        assert_eq!(w.players[0].connection.reliable.len(), 0);
    }
    h.release_read();
}

#[test]
fn send_through_bindings_uses_module_identity_as_source() {
    let shared = new_shared_world(populated_world());
    let mut bindings = Bindings::new(shared.clone(), module(2));
    let r = bindings.send(Target::LocalBroadcast(false), "hello".to_string(), vec![5]);
    assert!(r.is_ok());
    let h = bindings.world();
    {
        let w = h.borrow();
        assert_eq!(w.modules[0].inbox.len(), 1);
        assert_eq!(w.modules[0].inbox[0].source, module(2));
        assert_eq!(w.modules[1].inbox.len(), 0);
    }
    h.release_read();
}

#[test]
fn local_sends_succeed_even_with_faulted_connections() {
    let mut w = populated_world();
    w.players[0].connection.set_fault("link down".to_string());
    w.players[1].connection.set_fault("link down".to_string());
    let shared = new_shared_world(w);
    let mut bindings = Bindings::new(shared.clone(), module(1));
    // Local delivery cannot fail: transport faults only affect network
    // targets, and a networked broadcast surfaces them.
    assert!(bindings.send(Target::LocalBroadcast(true), "a".to_string(), vec![]).is_ok());
    assert!(bindings.send(Target::LocalDirect(module(2)), "b".to_string(), vec![]).is_ok());
    assert!(bindings.send(Target::NetworkBroadcastReliable, "c".to_string(), vec![]).is_err());
}

#[test]
fn fetch_request_carries_url_and_origin() {
    let shared = new_shared_world(populated_world());
    let mut bindings = Bindings::new(shared.clone(), module(1));
    let request = bindings.get("http://host/data".to_string());
    assert_eq!(request.url, "http://host/data".to_string());
    assert_eq!(request.module, module(1));
    // Completion re-enters through the shared handle and reaches the
    // originating module only.
    let response = package_response(request.url.clone(), Ok((200, b"ok".to_vec())));
    assert!(deliver_response_shared(&shared, request.module, &response));
    let h = bindings.world();
    {
        let w = h.borrow();
        assert_eq!(w.modules[0].inbox.len(), 1);
        assert_eq!(w.modules[1].inbox.len(), 0);
    }
    h.release_read();
}

#[test]
fn load_queues_package_url() {
    let shared = new_shared_world(populated_world());
    let mut bindings = Bindings::new(shared.clone(), module(1));
    bindings.load("https://example.invalid/pkg".to_string());
    let h = bindings.world();
    {
        let w = h.borrow();
        assert_eq!(w.pending_loads, vec!["https://example.invalid/pkg".to_string()]);
    }
    h.release_read();
}

#[test]
fn raw_input_queries_through_bindings() {
    let mut w = populated_world();
    let snapshot = RawInput {
        keys: vec![42],
        mouse_position_x: 0x3f00_0000,
        mouse_position_y: 0x0000_0001,
        mouse_wheel: 0,
        mouse_buttons: vec![MouseButton::Middle],
    };
    assert!(w.ingest_input(player(1), snapshot.clone()));
    let shared = new_shared_world(w);
    let mut bindings = Bindings::new(shared.clone(), module(1));
    assert_eq!(bindings.player_get_raw_input(player(1)), Some(snapshot.clone()));
    assert_eq!(bindings.player_get_raw_input(player(1)), Some(snapshot));
    assert_eq!(bindings.player_get_prev_raw_input(player(1)), None);
    assert_eq!(bindings.player_get_raw_input(player(9)), None);
}
