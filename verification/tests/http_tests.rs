use host_bridge::http::{
    decode_frame, deliver_http_response, encode_frame, package_response, response_to_frame,
    HttpFrame, HttpResponse,
};
use host_bridge::ids::EntityId;
use host_bridge::world::World;

fn module(n: u64) -> EntityId {
    EntityId::new(1, n, 0)
}

#[test]
fn success_outcome_is_packaged_verbatim() {
    let r = package_response("http://host/x".to_string(), Ok((200, b"ok".to_vec())));
    assert_eq!(r.url, "http://host/x".to_string());
    assert_eq!(r.status, 200);
    assert_eq!(r.body, b"ok".to_vec());
    assert_eq!(r.error, None);
}

#[test]
fn failure_folds_into_zero_status_and_message() {
    let r = package_response("http://host/x".to_string(), Err("connection refused".to_string()));
    assert_eq!(r.status, 0);
    assert!(r.body.is_empty());
    assert_eq!(r.error, Some("connection refused".to_string()));
}

#[test]
fn fetch_response_round_trip_reaches_origin_only() {
    let mut w = World::new();
    let origin = module(1);
    let other = module(2);
    assert!(w.load_module(origin, EntityId::new(3, 1, 0)));
    assert!(w.load_module(other, EntityId::new(3, 1, 0)));
    let response = package_response("http://host/x".to_string(), Ok((200, b"ok".to_vec())));
    let delivered = deliver_http_response(&mut w, origin, &response);
    assert!(delivered);
    // Exactly one envelope, to the originating module and no other.
    assert_eq!(w.modules[0].inbox.len(), 1);
    assert_eq!(w.modules[1].inbox.len(), 0);
    let env = &w.modules[0].inbox[0];
    assert_eq!(env.name, "http_response".to_string());
    // Decoding the payload gives back the response that was fetched.
    let frame = decode_frame(&env.data).expect("payload must decode");
    assert_eq!(frame.status, 200);
    assert_eq!(frame.body, b"ok".to_vec());
    assert_eq!(frame.url, b"http://host/x".to_vec());
    assert_eq!(frame.error, None);
}

#[test]
fn delivery_after_unload_is_a_no_op() {
    let mut w = World::new();
    let origin = module(1);
    assert!(w.load_module(origin, EntityId::new(3, 1, 0)));
    assert!(w.unload_module(origin));
    let response = package_response("http://host/x".to_string(), Ok((200, b"ok".to_vec())));
    let delivered = deliver_http_response(&mut w, origin, &response);
    assert!(!delivered);
    assert!(w.modules.is_empty());
}

#[test]
fn frame_codec_round_trips() {
    let frame = HttpFrame {
        status: 404,
        url: b"http://host/missing".to_vec(),
        body: b"not found".to_vec(),
        error: None,
    };
    let bytes = encode_frame(&frame);
    assert_eq!(decode_frame(&bytes), Some(frame));

    let faulty = HttpFrame {
        status: 0,
        url: b"http://host/x".to_vec(),
        body: Vec::new(),
        error: Some(b"connection refused".to_vec()),
    };
    let bytes = encode_frame(&faulty);
    assert_eq!(decode_frame(&bytes), Some(faulty));
}

#[test]
fn frame_encoding_is_exact() {
    let frame = HttpFrame { status: 1, url: b"a".to_vec(), body: Vec::new(), error: None };
    let bytes = encode_frame(&frame);
    let expected: Vec<u8> = vec![
        1, 0, 0, 0, // status, little endian
        1, 0, 0, 0, 0, 0, 0, 0, // url length
        b'a', // url bytes
        0, 0, 0, 0, 0, 0, 0, 0, // body length
        0, // no error
    ];
    assert_eq!(bytes, expected);
}

#[test]
fn decoder_rejects_malformed_bytes() {
    assert_eq!(decode_frame(&Vec::new()), None);
    assert_eq!(decode_frame(&vec![0u8; 11]), None);
    // A length prefix pointing past the end of the buffer.
    let mut bytes = vec![0u8; 12];
    bytes[4] = 0xff;
    assert_eq!(decode_frame(&bytes), None);
    // A trailing byte after a complete frame.
    let frame = HttpFrame { status: 7, url: Vec::new(), body: Vec::new(), error: None };
    let mut bytes = encode_frame(&frame);
    bytes.push(0);
    assert_eq!(decode_frame(&bytes), None);
    // An unknown error tag.
    let mut bytes = encode_frame(&frame);
    let last = bytes.len() - 1;
    bytes[last] = 2;
    assert_eq!(decode_frame(&bytes), None);
}

#[test]
fn response_framing_keeps_every_field() {
    let response = HttpResponse {
        url: "http://host/x".to_string(),
        status: 0,
        body: Vec::new(),
        error: Some("timed out".to_string()),
    };
    let frame = response_to_frame(&response);
    assert_eq!(frame.status, 0);
    assert_eq!(frame.url, b"http://host/x".to_vec());
    assert!(frame.body.is_empty());
    assert_eq!(frame.error, Some(b"timed out".to_vec()));
}
