use spaces::address::Address;
use spaces::identity::Identity;
use spaces::node::{Msg, Router};
use spaces::protocol::{self, Error as ProtocolError, Message, Payload};
use spaces::transport::{pack, unpack, Input, Output};

fn uuid(a: Address) -> uuid::Uuid {
    uuid::Uuid::from_u128(a.as_u128())
}

#[test]
fn input_send_layout_matches_bincode() {
    let a = Address::from_u128(42);
    let bytes = pack(&Input::Send(a, vec![1, 2, 3]));
    let expected = bincode::serialize(&(0u32, uuid(a), vec![1u8, 2, 3])).unwrap();
    assert_eq!(bytes, expected);
}

#[test]
fn input_join_layout_matches_bincode() {
    let a = Address::new();
    let bytes = pack(&Input::Join(a));
    let expected = bincode::serialize(&(1u32, uuid(a))).unwrap();
    assert_eq!(bytes, expected);
    assert_eq!(bytes.len(), 4 + 8 + 16);
}

#[test]
fn input_reads_back() {
    let a = Address::new();
    match unpack::<Input>(&pack(&Input::Send(a, vec![9; 100]))) {
        Some(Input::Send(b, p)) => {
            assert_eq!(a, b);
            assert_eq!(p, vec![9; 100]);
        }
        other => panic!("unexpected {:?}", other),
    }
    match unpack::<Input>(&pack(&Input::Join(a))) {
        Some(Input::Join(b)) => assert_eq!(a, b),
        other => panic!("unexpected {:?}", other),
    }
}

#[test]
fn input_ignores_trailing_bytes() {
    let a = Address::from_u128(7);
    let mut bytes = pack(&Input::Join(a));
    bytes.extend_from_slice(&[0xff, 0xee]);
    assert!(matches!(unpack::<Input>(&bytes), Some(Input::Join(b)) if b == a));
}

#[test]
fn input_refuses_bad_bytes() {
    let a = Address::from_u128(7);
    let bytes = pack(&Input::Send(a, vec![1, 2, 3]));
    // cut short
    assert!(unpack::<Input>(&bytes[..bytes.len() - 1]).is_none());
    // unknown tag
    let mut bad = bytes.clone();
    bad[0] = 2;
    assert!(unpack::<Input>(&bad).is_none());
    // address of the wrong length
    let wrong = bincode::serialize(&(1u32, vec![0u8; 15])).unwrap();
    assert!(unpack::<Input>(&wrong).is_none());
    assert!(unpack::<Input>(&[]).is_none());
}

#[test]
fn output_reads_back_and_matches_bincode() {
    let a = Address::new();
    let o = Output { address: a, payload: b"data".to_vec() };
    let bytes = pack(&o);
    assert_eq!(bytes, bincode::serialize(&(uuid(a), b"data".to_vec())).unwrap());
    let back: Output = unpack(&bytes).unwrap();
    assert_eq!(back.address, a);
    assert_eq!(back.payload, b"data".to_vec());
}

#[test]
fn payload_layout_matches_bincode() {
    let public = pack(&Payload::Public(vec![5u8, 6]));
    assert_eq!(public, bincode::serialize(&(0u32, vec![5u8, 6])).unwrap());
    let private = pack(&Payload::Private(vec![5u8]));
    assert_eq!(private, bincode::serialize(&(1u32, vec![5u8])).unwrap());
    assert!(matches!(unpack::<Payload<Vec<u8>>>(&private), Some(Payload::Private(v)) if v == vec![5]));
}

#[test]
fn router_delivers_to_joined_connections_in_join_order() {
    let a = Address::new();
    let b = Address::new();
    let mut router = Router::new();
    assert!(router.handle(Msg::Request(1, Input::Join(a))).is_empty());
    assert!(router.handle(Msg::Request(2, Input::Join(b))).is_empty());
    assert!(router.handle(Msg::Request(3, Input::Join(a))).is_empty());
    assert_eq!(router.members(&a), vec![1, 3]);
    let out = router.handle(Msg::Request(2, Input::Send(a, vec![7])));
    assert_eq!(out.len(), 2);
    assert_eq!(out[0].to, 1);
    assert_eq!(out[1].to, 3);
    for d in &out {
        assert_eq!(d.output.address, a);
        assert_eq!(d.output.payload, vec![7]);
    }
    assert_eq!(router.members(&a), vec![1, 3]);
}

#[test]
fn router_send_to_unknown_space_reaches_nobody() {
    let mut router = Router::new();
    let out = router.handle(Msg::Request(1, Input::Send(Address::new(), vec![1])));
    assert!(out.is_empty());
}

#[test]
fn protocol_message_survives_the_node() {
    let identity = Identity::new();
    let a = Address::new();
    let payload = bincode::serialize(&"hi there").unwrap();
    let request = protocol::pack(Message::Peer(Payload::Public(payload.clone()), identity.clone(), a)).unwrap();

    let mut router = Router::new();
    router.handle(Msg::Request(10, unpack::<Input>(&protocol::pack(Message::JoinRoom(a)).unwrap()).unwrap()));
    let input: Input = unpack(&request).unwrap();
    let out = router.handle(Msg::Request(11, input));
    assert_eq!(out.len(), 1);
    assert_eq!(out[0].to, 10);

    let (p, peer, addr) = protocol::unpack(&pack(&out[0].output)).unwrap();
    assert_eq!(p, payload);
    assert!(peer.same(&identity.as_peer()));
    assert_eq!(addr, a);
}

#[test]
fn protocol_join_room_is_a_join_request() {
    let a = Address::new();
    let bytes = protocol::pack(Message::JoinRoom(a)).unwrap();
    assert!(matches!(unpack::<Input>(&bytes), Some(Input::Join(b)) if b == a));
}

#[test]
fn protocol_unpack_errors() {
    assert!(matches!(protocol::unpack(&[0, 1]), Err(ProtocolError::Serde)));
    let a = Address::new();
    let bad_payload = Output { address: a, payload: vec![7, 7] };
    assert!(matches!(protocol::unpack(&pack(&bad_payload)), Err(ProtocolError::Serde)));
    let not_signed = Output { address: a, payload: pack(&Payload::Public(vec![1, 2])) };
    assert!(matches!(
        protocol::unpack(&pack(&not_signed)),
        Err(ProtocolError::Identity(spaces::identity::Error::Serde))
    ));
}

#[test]
fn decoded_value_writes_back_to_the_bytes_read() {
    let a = Address::new();
    let mut bytes = pack(&Input::Send(a, vec![4, 5, 6]));
    let len = bytes.len();
    bytes.extend_from_slice(&[1, 2, 3]);
    let input: Input = unpack(&bytes).unwrap();
    assert_eq!(pack(&input), bytes[..len].to_vec());
}

#[test]
fn private_deliveries_are_recognised() {
    let a = Address::new();
    let private = Output { address: a, payload: pack(&Payload::Private(vec![1])) };
    assert!(protocol::is_private_delivery(&pack(&private)));
    let public = Output { address: a, payload: pack(&Payload::Public(vec![1])) };
    assert!(!protocol::is_private_delivery(&pack(&public)));
    assert!(!protocol::is_private_delivery(&[0]));
}

#[test]
fn members_are_the_joiners_in_join_order() {
    let a = Address::new();
    let b = Address::new();
    let mut router = Router::new();
    let requests = vec![
        (5, Input::Join(a)),
        (6, Input::Send(a, vec![1])),
        (7, Input::Join(b)),
        (6, Input::Join(a)),
        (5, Input::Join(a)),
        (8, Input::Send(b, vec![2])),
    ];
    for (from, input) in requests {
        router.handle(Msg::Request(from, input));
    }
    assert_eq!(router.members(&a), vec![5, 6, 5]);
    assert_eq!(router.members(&b), vec![7]);
}
