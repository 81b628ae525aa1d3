use sha3::Digest;
use spaces::address::Address;
use spaces::block::Block;
use spaces::channel::{Action as ChannelAction, ChannelMsg};
use spaces::registry::{Space as RegisteredSpace, Spaces as Registry};

#[test]
fn it_works() {
    assert_eq!(2 + 2, 4);
}

fn hex(bytes: &[u8]) -> String {
    bytes.iter().map(|b| format!("{:02x}", b)).collect()
}

#[test]
fn address_new_is_random_v4() {
    let a = Address::new();
    let b = Address::new();
    assert_ne!(a, b);
    let u = uuid::Uuid::from_u128(a.as_u128());
    assert_eq!(u.get_version_num(), 4);
    assert_eq!((a.as_u128() >> 76) & 0xf, 4);
    assert_eq!((a.as_u128() >> 62) & 0x3, 2);
}

#[test]
fn address_to_string_is_hyphenated_lowercase() {
    let a = Address::from_u128(0x0123456789abcdef_fedcba9876543210);
    assert_eq!(a.to_string(), "01234567-89ab-cdef-fedc-ba9876543210");
    assert_eq!(a.to_string(), uuid::Uuid::from_u128(a.as_u128()).to_string());
}

#[test]
fn address_string_reads_back() {
    let a = Address::new();
    assert_eq!(Address::from_str(&a.to_string()), Ok(a));
    let b = Address::from_str("{01234567-89AB-CDEF-FEDC-BA9876543210}").unwrap();
    assert_eq!(b.as_u128(), 0x0123456789abcdef_fedcba9876543210);
}

#[test]
fn address_rejects_non_uuid() {
    assert_eq!(
        Address::from_str("not a uuid"),
        Err(spaces::address::ParseAddressError::NotAUuid)
    );
}

#[test]
fn block_hash_is_sha3_of_message_and_state() {
    let b = Block::new(7u32, b"ab", b"c");
    // SHA3-256("abc")
    assert_eq!(
        hex(&b.hash),
        "3a985da74fe225b2045c172d6bd390bd855f086e3e9d525b46bfe24511431532"
    );
    assert!(b.previous_hash.is_none());
    assert_eq!(b.msg, 7);
}

#[test]
fn block_update_links_to_previous() {
    let first = Block::new("m1", b"", b"");
    // SHA3-256("")
    assert_eq!(
        hex(&first.hash),
        "a7ffc6f8bf1ed76651c14756a061d662f580ff4de43b49fa82d80a4b80f8434a"
    );
    let second = first.update("m2", b"x", b"y");
    assert_eq!(second.previous_hash.as_deref(), Some(first.hash.as_slice()));
    let mut data = b"xy".to_vec();
    data.extend_from_slice(&first.hash);
    assert_eq!(second.hash, sha3::Sha3_256::digest(&data).to_vec());
    assert_ne!(second.hash, first.hash);
}

#[test]
fn channel_message_holds_its_fields() {
    let m = ChannelMsg {
        id: "room".to_string(),
        action: ChannelAction::Participants(3),
        hash: vec![0; 32],
    };
    assert_eq!(m.action, ChannelAction::Participants(3));
    assert_ne!(ChannelAction::Ping, ChannelAction::Pong);
}

#[test]
fn registry_adds_spaces_under_their_address() {
    let mut r = Registry::new();
    let a = r.new_space();
    let b = r.new_space();
    assert_ne!(a, b);
    let s = RegisteredSpace::new();
    let c = r.add_space(s);
    assert_ne!(c, a);
}
