use spaces::address::Address;
use spaces::board::{Action as BoardAction, Message as BoardMessage, Space as BoardSpace, Spaces as Board};
use spaces::identity::{Identity, PeerId};
use spaces::presense::{Msg, PeerPresense, Presense};
use spaces::space::{Action, Message, Space, SpaceAddress, Universe};
use spaces::store::{Group, GroupMsg, Msg as StoreMsg, Response, State};

#[test]
fn space_add_message_uses_correct_author() {
    let i1 = Identity::new().as_peer();
    let i2 = Identity::new().as_peer();
    let mut space = Space::new(Identity::new().as_peer(), 0);

    space.add_message(
        Message {
            author: i1,
            text: "".into(),
        },
        i2.clone(),
    );

    let message = &space.messages[0];

    assert!(message.author.same(&i2))
}

fn peer(n: u8) -> PeerId {
    PeerId::from_bytes(&[n; 4])
}

#[test]
fn handle_action_records_message_from_sender() {
    let mut u = Universe::new(peer(0));
    let a = SpaceAddress(Address::new());
    u.handle_action(
        Action::Message(Message { author: peer(9), text: "hello".to_string() }),
        peer(1),
        &a,
        1000,
    );
    let s = u.get(&a).unwrap();
    assert_eq!(s.messages().len(), 1);
    assert!(s.messages()[0].author.same(&peer(1)));
    assert_eq!(s.messages()[0].text, "hello");
    assert!(s.presense.local().peer_id.same(&peer(0)));
    assert_eq!(s.presense.local().alias, "anon");
    assert_eq!(s.presense.local().last_updated, 1000);
}

#[test]
fn presence_report_is_stamped_and_replaced() {
    let mut u = Universe::new(peer(0));
    let a = SpaceAddress(Address::new());
    let mut report = PeerPresense::new(peer(9), 5);
    report.alias = "bob".to_string();
    report.is_typing = true;
    u.handle_action(Action::Presense(Msg::Presense(report)), peer(2), &a, 2000);
    let s = u.get(&a).unwrap();
    assert_eq!(s.presense.peers().len(), 1);
    let p = s.presense.get(&peer(2)).unwrap();
    assert_eq!(p.alias, "bob");
    assert_eq!(p.last_updated, 2000);
    assert!(p.is_typing);
    assert!(s.presense.get(&peer(9)).is_none());

    let mut again = PeerPresense::new(peer(2), 0);
    again.alias = "robert".to_string();
    u.handle_action(Action::Presense(Msg::Presense(again)), peer(2), &a, 3000);
    let s = u.get(&a).unwrap();
    assert_eq!(s.presense.peers().len(), 1);
    assert_eq!(s.presense.get(&peer(2)).unwrap().alias, "robert");
    assert_eq!(s.presense.get(&peer(2)).unwrap().last_updated, 3000);
}

#[test]
fn expired_reports_are_removed() {
    let mut u = Universe::new(peer(0));
    let a = SpaceAddress(Address::new());
    u.handle_action(Action::Presense(Msg::Presense(PeerPresense::new(peer(1), 0))), peer(1), &a, 1000);
    u.handle_action(Action::Presense(Msg::Presense(PeerPresense::new(peer(2), 0))), peer(2), &a, 4000);
    // at 5000: peer 1 is 4000 ms old (not stale), peer 2 is 1000 ms old
    assert!(u.remove_expired(&a, 5000).is_empty());
    // at 5001: peer 1 is 4001 ms old (stale)
    let gone = u.remove_expired(&a, 5001);
    assert_eq!(gone.len(), 1);
    assert!(gone[0].same(&peer(1)));
    let s = u.get(&a).unwrap();
    assert!(s.presense.get(&peer(1)).is_none());
    assert!(s.presense.get(&peer(2)).is_some());
}

#[test]
fn typing_indicator_lists_other_typing_peers() {
    let mut u = Universe::new(peer(0));
    let a = SpaceAddress(Address::new());
    for (n, alias, typing) in [(1u8, "ann", true), (2, "ben", false), (3, "cat", true), (0, "me", true)] {
        let mut p = PeerPresense::new(peer(n), 0);
        p.alias = alias.to_string();
        p.is_typing = typing;
        u.handle_action(Action::Presense(Msg::Presense(p)), peer(n), &a, 10);
    }
    let s = u.get(&a).unwrap();
    assert_eq!(s.presense.typing_names(&peer(0)), "ann, cat");
    assert_eq!(s.presense.typing_names(&peer(1)), "cat, me");
    let empty = Presense::new(peer(0), 0);
    assert_eq!(empty.typing_names(&peer(0)), "");
}

#[test]
fn alias_of_author_or_anon() {
    let mut u = Universe::new(peer(0));
    let a = SpaceAddress(Address::new());
    let mut p = PeerPresense::new(peer(4), 0);
    p.alias = "dora".to_string();
    u.handle_action(Action::Presense(Msg::Presense(p)), peer(4), &a, 10);
    let s = u.get(&a).unwrap();
    assert_eq!(s.presense.alias_of(&peer(4)), "dora");
    assert_eq!(s.presense.alias_of(&peer(5)), "anon");
}

#[test]
fn local_alias_and_typing_flags() {
    let mut u = Universe::new(peer(0));
    let a = SpaceAddress(Address::new());
    assert_eq!(u.local_alias(&a), "anon");
    u.set_local_alias(&a, "zed".to_string(), 100);
    assert_eq!(u.local_alias(&a), "zed");
    u.start_typing(&a, 200);
    assert!(u.get(&a).unwrap().presense.local().is_typing);
    u.stop_typing_if_idle(&a, 3199);
    assert!(u.get(&a).unwrap().presense.local().is_typing);
    u.stop_typing_if_idle(&a, 3200);
    let local = u.get(&a).unwrap().presense.local();
    assert!(!local.is_typing);
    assert_eq!(local.last_updated, 3200);
}

#[test]
fn universe_spaces_create_load_iter() {
    let mut u = Universe::new(peer(0));
    let a = u.create_new_space(1);
    let b = SpaceAddress(Address::new());
    let mut s = Space::new(peer(0), 1);
    s.add_message(Message { author: peer(1), text: "x".to_string() }, peer(1));
    u.load_space(&b, s);
    let mut all = u.iter();
    all.sort_by_key(|x| x.0.as_u128());
    let mut expected = vec![a, b];
    expected.sort_by_key(|x| x.0.as_u128());
    assert_eq!(all, expected);
    assert_eq!(u.get(&b).unwrap().messages().len(), 1);
    assert!(u.get(&a).unwrap().messages().is_empty());
    u.space_mut(&a, 5);
    assert_eq!(u.iter().len(), 2);
    assert!(u.get(&SpaceAddress(Address::new())).is_none());
}

#[test]
fn space_address_notation_and_title() {
    let a = SpaceAddress(Address::from_u128(0xabcdef01_0000_0000_0000_000000000000));
    assert_eq!(a.title(), "abc");
    assert_eq!(a.to_string(), "abcdef01-0000-0000-0000-000000000000");
    assert_eq!(SpaceAddress::from_str(&a.to_string()).unwrap(), a);
    assert!(SpaceAddress::from_str("nope").is_err());
}

#[test]
fn board_posts_to_spaces() {
    let mut board = Board::new();
    let a = board.create_new_space();
    board.handle_action(BoardAction::Send(a, BoardMessage { text: "one".to_string() }));
    board.handle_action(BoardAction::Send(a, BoardMessage { text: "two".to_string() }));
    let texts: Vec<&str> = board.get(&a).unwrap().messages().iter().map(|m| m.text.as_str()).collect();
    assert_eq!(texts, vec!["one", "two"]);
    let b = SpaceAddress(Address::new());
    board.load_space(&b, BoardSpace::new());
    assert_eq!(board.iter().len(), 2);
    assert!(board.get(&b).unwrap().messages().is_empty());
}

#[test]
fn store_answers_ping_and_pong() {
    let mut state = State::new();
    let ping = StoreMsg::Response(Response::Group(Group { id: "r".to_string(), msg: GroupMsg::Ping }));
    assert!(state.update(ping));
    let pong = StoreMsg::Response(Response::Group(Group { id: "r".to_string(), msg: GroupMsg::Pong }));
    assert!(state.update(pong));
    let other = StoreMsg::Response(Response::Group(Group { id: "s".to_string(), msg: GroupMsg::Ping }));
    assert!(state.update(other));
    assert!(!state.update(StoreMsg::InitListener));
    let rooms = state.rooms();
    assert_eq!(rooms.len(), 2);
    assert_eq!(rooms[0].0, "r");
    assert_eq!(rooms[0].1.messages, vec!["pong".to_string(), "ping".to_string()]);
    assert_eq!(rooms[1].0, "s");
    assert_eq!(rooms[1].1.messages, vec!["pong".to_string()]);
}
