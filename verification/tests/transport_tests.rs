use host_bridge::ids::EntityId;
use host_bridge::message::Envelope;
use host_bridge::transport::{channel_send, Channel, Connection};

fn envelope(tag: u8) -> Envelope {
    Envelope::new(EntityId::new(1, 1, 0), &"n".to_string(), &vec![tag])
}

#[test]
fn each_tier_uses_its_own_channel() {
    let mut conn = Connection::new(7);
    assert!(channel_send(&mut conn, Channel::ReliableStream, envelope(1)).is_ok());
    assert!(channel_send(&mut conn, Channel::UnreliableStream, envelope(2)).is_ok());
    assert!(channel_send(&mut conn, Channel::Datagram, envelope(3)).is_ok());
    assert_eq!(conn.reliable.len(), 1);
    assert_eq!(conn.unreliable.len(), 1);
    assert_eq!(conn.datagrams.len(), 1);
    assert_eq!(conn.reliable[0].data, vec![1]);
    assert_eq!(conn.unreliable[0].data, vec![2]);
    assert_eq!(conn.datagrams[0].data, vec![3]);
}

#[test]
fn reliable_channel_keeps_send_order() {
    let mut conn = Connection::new(7);
    for tag in 0..5u8 {
        assert!(channel_send(&mut conn, Channel::ReliableStream, envelope(tag)).is_ok());
    }
    let tags: Vec<u8> = conn.reliable.iter().map(|e| e.data[0]).collect();
    assert_eq!(tags, vec![0, 1, 2, 3, 4]);
}

#[test]
fn faulted_connection_surfaces_its_error_verbatim_and_accepts_nothing() {
    let mut conn = Connection::new(7);
    conn.set_fault("link down".to_string());
    let err = channel_send(&mut conn, Channel::ReliableStream, envelope(1)).unwrap_err();
    assert_eq!(err.message, "link down".to_string());
    let err = channel_send(&mut conn, Channel::Datagram, envelope(2)).unwrap_err();
    assert_eq!(err.message, "link down".to_string());
    assert!(conn.reliable.is_empty());
    assert!(conn.unreliable.is_empty());
    assert!(conn.datagrams.is_empty());
}
