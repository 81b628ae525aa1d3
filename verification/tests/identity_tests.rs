use spaces::identity::{pack, unpack, Error, Identity, Message, OpaquePublicKey, PeerId, Signature};
use spaces::transport;

fn libp2p_public_key(identity: &Identity) -> libp2p::identity::PublicKey {
    libp2p::identity::PublicKey::try_decode_protobuf(&identity.public_key()).unwrap()
}

#[test]
fn pack_and_unpack_works() {
    let identity = Identity::new();
    let payload = 1i32;

    let data = pack(&bincode::serialize(&payload).unwrap(), &identity.clone()).unwrap();
    let (result, peer) = unpack(&data).unwrap();
    let result: i32 = bincode::deserialize(&result).unwrap();

    let expected = libp2p::PeerId::from_public_key(&libp2p_public_key(&identity));
    assert_eq!(libp2p::PeerId::from_bytes(&peer.bytes).unwrap(), expected);
    assert_eq!(result, payload)
}

#[test]
fn identity_from_secret_matches_libp2p() {
    let secret = [7u8; 32];
    let identity = Identity::from_secret(&secret).unwrap();
    let keypair = libp2p::identity::Keypair::ed25519_from_bytes(secret.to_vec()).unwrap();
    assert_eq!(identity.public_key(), keypair.public().encode_protobuf());
    assert_eq!(
        identity.as_peer().bytes,
        keypair.public().to_peer_id().to_bytes()
    );
    assert!(Identity::from_secret(&[1u8; 31]).is_none());
}

#[test]
fn signature_is_deterministic_and_verifies() {
    let identity = Identity::from_secret(&[3u8; 32]).unwrap();
    let a = pack(b"hello", &identity).unwrap();
    let b = pack(b"hello", &identity).unwrap();
    assert_eq!(a, b);
    let m: Message = transport::unpack(&a).unwrap();
    assert_eq!(m.signature.0.len(), 64);
    assert_ne!(m.signature.0, b"hello".to_vec());
    let keypair = libp2p::identity::Keypair::ed25519_from_bytes(vec![3u8; 32]).unwrap();
    assert!(keypair.public().verify(b"hello", &m.signature.0));
    assert_eq!(m.payload, b"hello".to_vec());
}

#[test]
fn unpack_refuses_garbage() {
    assert_eq!(unpack(&[1, 2, 3]).err(), Some(Error::Serde));
}

#[test]
fn unpack_refuses_tampered_payload() {
    let identity = Identity::new();
    let data = pack(b"pay", &identity).unwrap();
    let mut m: Message = transport::unpack(&data).unwrap();
    m.payload = b"paz".to_vec();
    let tampered = transport::pack(&m);
    assert_eq!(unpack(&tampered).err(), Some(Error::InvalidSignature));
}

#[test]
fn unpack_refuses_bad_public_key() {
    let m = Message {
        public_key: OpaquePublicKey(vec![9, 9, 9]),
        signature: Signature(vec![0; 64]),
        payload: vec![1],
    };
    assert_eq!(unpack(&transport::pack(&m)).err(), Some(Error::PublicKey));
}

#[test]
fn signed_message_layout_is_three_framed_strings() {
    let identity = Identity::from_secret(&[5u8; 32]).unwrap();
    let data = pack(&[0xaa, 0xbb], &identity).unwrap();
    let pk = identity.public_key();
    let m: Message = transport::unpack(&data).unwrap();
    let expected = bincode::serialize(&(pk.clone(), m.signature.0.clone(), vec![0xaau8, 0xbb])).unwrap();
    assert_eq!(data, expected);
}

#[test]
fn peer_ids_compare_by_bytes() {
    let a = PeerId::from_bytes(&[1, 2, 3]);
    let b = PeerId::from_bytes(&[1, 2, 3]);
    let c = PeerId::from_bytes(&[1, 2]);
    assert!(a.same(&b));
    assert!(!a.same(&c));
    let i = Identity::new();
    let j = Identity::new();
    assert!(!i.as_peer().same(&j.as_peer()));
    assert!(i.as_peer().same(&i.clone().as_peer()));
}
