use ava_platformvm::ids::NodeId;
use ava_platformvm::p2p::client::{prefix_message, Client, Pending};
use ava_platformvm::p2p::error::Error;
use ava_platformvm::p2p::handler::{
    err_not_validator, err_throttled, err_unexpected, err_unregistered_handler,
    ATOMIC_TX_GOSSIP_HANDLER_ID, TX_GOSSIP_HANDLER_ID,
};
use ava_platformvm::p2p::network::{parse_prefix, protocol_prefix, Dispatch, P2pNetwork};
use ava_platformvm::p2p::pb::{PullGossipRequest, PullGossipResponse, PushGossip};

fn test_node(byte: u8) -> NodeId {
    NodeId::from([byte; 20])
}

fn test_network() -> P2pNetwork {
    P2pNetwork::new(test_node(0))
}

#[test]
fn error_constructors_match_go_codes_and_messages() {
    let cases = [
        (err_unexpected(), -1, "unexpected error"),
        (err_unregistered_handler(), -2, "unregistered handler"),
        (err_not_validator(), -3, "not a validator"),
        (err_throttled(), -4, "throttled"),
    ];
    for (err, code, message) in cases {
        assert_eq!(err.code, code);
        assert_eq!(err.message, message);
    }
    assert_eq!((TX_GOSSIP_HANDLER_ID, ATOMIC_TX_GOSSIP_HANDLER_ID), (0, 1));
}

#[test]
fn protocol_prefix_matches_go_append_uvarint() {
    assert_eq!(protocol_prefix(0), vec![0x00]);
    assert_eq!(protocol_prefix(1), vec![0x01]);
    assert_eq!(protocol_prefix(127), vec![0x7f]);
    assert_eq!(protocol_prefix(128), vec![0x80, 0x01]);
}

#[test]
fn parse_prefix_splits_handler_id_and_payload() {
    let mut framed = protocol_prefix(1);
    framed.extend_from_slice(b"payload");
    let (id, rest) = parse_prefix(&framed).expect("a prefix");
    assert_eq!(id, 1);
    assert_eq!(rest, b"payload");
    assert!(parse_prefix(&[]).is_none());
}

#[test]
fn every_prefix_is_read_back() {
    for id in [0, 1, 127, 128, 300, 16_384, 1 << 35, u64::MAX] {
        let framed = prefix_message(&protocol_prefix(id), b"x");
        assert_eq!(parse_prefix(&framed), Some((id, b"x".as_slice())));
    }
    // A number that does not end, and one that is too large.
    assert!(parse_prefix(&[0x80]).is_none());
    assert!(parse_prefix(&[0xff, 0xff, 0xff, 0xff, 0xff, 0xff, 0xff, 0xff, 0xff, 0x02]).is_none());
}

#[test]
fn gossip_goes_to_its_handler() {
    let mut network = test_network();
    network.add_handler(0).expect("add");
    let framed = prefix_message(&protocol_prefix(0), b"hello");
    assert_eq!(network.dispatch_gossip(&framed), Some((0, b"hello".as_slice())));
    // Gossip for nobody is dropped.
    let framed = prefix_message(&protocol_prefix(99), b"hello");
    assert_eq!(network.dispatch_gossip(&framed), None);
    assert_eq!(network.dispatch_gossip(&[]), None);
}

#[test]
fn requests_go_to_their_handler_or_are_refused() {
    let mut network = test_network();
    network.add_handler(0).expect("add");
    let framed = prefix_message(&protocol_prefix(0), b"req");
    match network.dispatch_request(&framed) {
        Dispatch::Handler(id, msg) => assert_eq!((id, msg), (0, b"req".as_slice())),
        Dispatch::Refused(e) => panic!("refused: {e:?}"),
    }
    for msg in [protocol_prefix(99), vec![], vec![0x80]] {
        match network.dispatch_request(&msg) {
            Dispatch::Handler(id, _) => panic!("handled by {id}"),
            Dispatch::Refused(e) => {
                assert_eq!(e.code, -2);
                assert_eq!(e.message, "unregistered handler");
            },
        }
    }
}

#[test]
fn connect_and_disconnect_update_peers_and_sample() {
    let mut network = test_network();
    assert_eq!(network.node_id(), test_node(0));
    assert_eq!(network.sample_peer(), None);
    let node = test_node(1);
    network.handle_connected(node);
    assert_eq!(network.sample_peer(), Some(node));
    network.handle_disconnected(node);
    assert_eq!(network.sample_peer(), None);
}

#[test]
fn every_peer_is_sampled_sooner_or_later() {
    let mut network = test_network();
    for b in 1..5u8 {
        network.handle_connected(test_node(b));
    }
    let mut seen = [false; 5];
    for _ in 0..200 {
        let n = network.sample_peer().expect("a peer");
        seen[usize::from(n.bytes[0])] = true;
    }
    assert_eq!(seen, [false, true, true, true, true]);
}

#[test]
fn add_handler_rejects_duplicate_id() {
    let mut network = test_network();
    network.add_handler(0).expect("add");
    let err = network.add_handler(0).expect_err("a second one");
    assert!(matches!(err, Error::DuplicateHandler(0)));
    network.add_handler(1).expect("another");
}

#[test]
fn pull_gossip_request_wire_bytes_pinned() {
    let req = PullGossipRequest { salt: vec![0xAA, 0xBB], filter: vec![0x01] };
    let enc = req.encode_to_vec();
    assert_eq!(enc, vec![0x12, 0x02, 0xAA, 0xBB, 0x1A, 0x01, 0x01]);
    let dec = PullGossipRequest::decode(&enc).expect("decode");
    assert_eq!(dec, req);
}

#[test]
fn push_gossip_frame_matches_go_oracle() {
    let msg = PushGossip { gossip: vec![vec![0xDE, 0xAD], vec![0xBE, 0xEF]] };
    let mut frame = protocol_prefix(0);
    frame.extend_from_slice(&msg.encode_to_vec());
    assert_eq!(frame, vec![0x00, 0x0A, 0x02, 0xDE, 0xAD, 0x0A, 0x02, 0xBE, 0xEF]);

    let (handler_id, payload) = parse_prefix(&frame).expect("prefix");
    assert_eq!(handler_id, 0);
    assert_eq!(PushGossip::decode(payload).expect("decode"), msg);
}

#[test]
fn pull_gossip_request_matches_go_oracle() {
    let salt: Vec<u8> = (1u8..=32).collect();
    let filter: Vec<u8> = (0xF0u8..=0xF7).collect();
    let msg = PullGossipRequest { salt: salt.clone(), filter: filter.clone() };
    let mut frame = protocol_prefix(0);
    frame.extend_from_slice(&msg.encode_to_vec());
    let mut expected = vec![0x00, 0x12, 0x20];
    expected.extend_from_slice(&salt);
    expected.extend_from_slice(&[0x1A, 0x08]);
    expected.extend_from_slice(&filter);
    assert_eq!(frame, expected);

    let (handler_id, payload) = parse_prefix(&frame).expect("prefix");
    assert_eq!(handler_id, 0);
    assert_eq!(PullGossipRequest::decode(payload).expect("decode"), msg);
}

#[test]
fn pull_gossip_response_matches_go_oracle() {
    let msg = PullGossipResponse { gossip: vec![vec![0xCA, 0xFE]] };
    let mut frame = protocol_prefix(0);
    frame.extend_from_slice(&msg.encode_to_vec());
    assert_eq!(frame, vec![0x00, 0x0A, 0x02, 0xCA, 0xFE]);

    let (handler_id, payload) = parse_prefix(&frame).expect("prefix");
    assert_eq!(handler_id, 0);
    assert_eq!(PullGossipResponse::decode(payload).expect("decode"), msg);
}

#[test]
fn fields_that_are_not_known_are_passed_over() {
    // A number in field 7, then an item, then a group in field 5 that holds one.
    let bytes = [0x38, 0x96, 0x01, 0x0A, 0x01, 0x07, 0x2B, 0x0A, 0x01, 0x08, 0x2C];
    assert_eq!(
        PushGossip::decode(&bytes),
        Some(PushGossip { gossip: vec![vec![7]] })
    );
    // Of a field that comes twice the last one counts.
    let bytes = [0x12, 0x01, 0x01, 0x12, 0x01, 0x02];
    assert_eq!(
        PullGossipRequest::decode(&bytes),
        Some(PullGossipRequest { salt: vec![2], filter: vec![] })
    );
}

#[test]
fn messages_that_are_cut_short_are_refused() {
    assert_eq!(PushGossip::decode(&[]), Some(PushGossip { gossip: vec![] }));
    assert_eq!(PushGossip::decode(&[0x0A]), None);
    assert_eq!(PushGossip::decode(&[0x0A, 0x02, 0x01]), None);
    // The wrong kind of field, and the field zero.
    assert_eq!(PushGossip::decode(&[0x08, 0x01]), None);
    assert_eq!(PushGossip::decode(&[0x00, 0x01]), None);
    // A group that does not end, and one that ends as another.
    assert_eq!(PushGossip::decode(&[0x2B]), None);
    assert_eq!(PushGossip::decode(&[0x2B, 0x34]), None);
    assert_eq!(PullGossipRequest::decode(&[0x12, 0x05]), None);
    assert_eq!(PullGossipResponse::decode(&[0x0A, 0x7F]), None);
}

#[test]
fn a_response_is_delivered_once() {
    let mut pending: Pending<&str> = Pending::new();
    let a = pending.begin("a").expect("begin");
    let b = pending.begin("b").expect("begin");
    assert_eq!((a, b), (0, 1));
    assert_eq!(pending.resolve(b), Some("b"));
    assert_eq!(pending.resolve(b), None);
    // A response that nobody waits for is dropped.
    assert_eq!(pending.resolve(77), None);
    pending.abandon(a);
    assert_eq!(pending.resolve(a), None);
}

#[test]
fn messages_of_a_client_carry_its_prefix() {
    let client = Client::new(128);
    assert_eq!(client.handler_id(), 128);
    assert_eq!(client.frame(b"hi"), vec![0x80, 0x01, b'h', b'i']);
}

#[test]
fn failures_of_the_network_say_what_failed() {
    assert_eq!(
        Error::DuplicateHandler(7).message(),
        "failed to register handler id 7: existing app protocol"
    );
    assert_eq!(
        Error::RequestPending(41).message(),
        "failed to issue request with request id 41: request pending"
    );
    assert_eq!(Error::Decode("x".to_string()).message(), "decode: x");
    assert_eq!(Error::Send("x".to_string()).message(), "send: x");
    assert_eq!(Error::KnownSet("x".to_string()).message(), "set: x");
}
