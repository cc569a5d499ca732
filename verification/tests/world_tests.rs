use host_bridge::ids::EntityId;
use host_bridge::input::{MouseButton, RawInput};
use host_bridge::world::World;

fn eid(n: u64) -> EntityId {
    EntityId::new(2, n, 0)
}

fn sample_input() -> RawInput {
    RawInput {
        keys: vec![17, 30, 31],
        mouse_position_x: 0x4348_0000,
        mouse_position_y: 0xc2c8_0000,
        mouse_wheel: 0x3f80_0000,
        mouse_buttons: vec![MouseButton::Left, MouseButton::Other(4)],
    }
}

#[test]
fn connect_rejects_duplicate_entity_and_user() {
    let mut w = World::new();
    assert!(w.connect_player(eid(1), "a".to_string(), 10));
    assert!(!w.connect_player(eid(1), "other".to_string(), 11));
    assert!(!w.connect_player(eid(2), "a".to_string(), 12));
    assert_eq!(w.player_count(), 1);
}

#[test]
fn disconnect_removes_only_the_named_player() {
    let mut w = World::new();
    assert!(w.connect_player(eid(1), "a".to_string(), 10));
    assert!(w.connect_player(eid(2), "b".to_string(), 11));
    assert!(w.disconnect_player(&"a".to_string()));
    assert_eq!(w.player_count(), 1);
    assert_eq!(w.players[0].user_id, "b".to_string());
    assert!(!w.disconnect_player(&"a".to_string()));
}

#[test]
fn raw_input_absent_for_unknown_player_or_before_ingestion() {
    let mut w = World::new();
    assert!(w.get_raw_input(eid(9)).is_none());
    assert!(w.connect_player(eid(1), "a".to_string(), 10));
    assert!(w.get_raw_input(eid(1)).is_none());
    assert!(w.get_prev_raw_input(eid(1)).is_none());
    // Ingesting for an unknown entity is a no-op, not an error.
    assert!(!w.ingest_input(eid(9), RawInput::empty()));
    assert!(w.get_raw_input(eid(9)).is_none());
}

#[test]
fn ingestion_shifts_current_to_previous_wholesale() {
    let mut w = World::new();
    assert!(w.connect_player(eid(1), "a".to_string(), 10));
    let first = sample_input();
    assert!(w.ingest_input(eid(1), first.clone()));
    assert_eq!(w.get_raw_input(eid(1)), Some(&first));
    assert!(w.get_prev_raw_input(eid(1)).is_none());
    let second = RawInput {
        keys: vec![57],
        mouse_position_x: 0,
        mouse_position_y: 0,
        mouse_wheel: 0,
        mouse_buttons: vec![],
    };
    assert!(w.ingest_input(eid(1), second.clone()));
    assert_eq!(w.get_raw_input(eid(1)), Some(&second));
    assert_eq!(w.get_prev_raw_input(eid(1)), Some(&first));
}

#[test]
fn raw_input_query_is_idempotent_within_a_tick() {
    let mut w = World::new();
    assert!(w.connect_player(eid(1), "a".to_string(), 10));
    assert!(w.ingest_input(eid(1), sample_input()));
    let first_read = w.get_raw_input(eid(1)).cloned();
    let second_read = w.get_raw_input(eid(1)).cloned();
    // Bit-identical snapshots: every field, including the float bit
    // patterns, compares equal.
    assert_eq!(first_read, second_read);
    let prev1 = w.get_prev_raw_input(eid(1)).cloned();
    let prev2 = w.get_prev_raw_input(eid(1)).cloned();
    assert_eq!(prev1, prev2);
}

#[test]
fn module_lifecycle_and_pending_loads() {
    let mut w = World::new();
    let m = EntityId::new(1, 1, 0);
    let p = EntityId::new(3, 1, 0);
    assert!(w.load_module(m, p));
    assert!(!w.load_module(m, p));
    assert!(w.find_module(m).is_some());
    assert!(w.unload_module(m));
    assert!(w.find_module(m).is_none());
    assert!(!w.unload_module(m));
    w.request_package_load("https://example.invalid/pkg".to_string());
    assert_eq!(w.pending_loads.len(), 1);
    assert_eq!(w.pending_loads[0], "https://example.invalid/pkg".to_string());
    w.request_package_load("https://example.invalid/other".to_string());
    let drained = w.drain_pending_loads();
    assert_eq!(
        drained,
        vec![
            "https://example.invalid/pkg".to_string(),
            "https://example.invalid/other".to_string()
        ]
    );
    assert!(w.pending_loads.is_empty());
}
