//! The client's view of the spaces it takes part in: messages and presence,
//! updated by what arrives from the node and by the local user.
//!
//! Times are milliseconds since the Unix epoch, handed in by the caller.

use std::collections::HashMap;

use vstd::prelude::*;
use vstd::string::*;

use crate::address::{hyphenated, is_random_uuid, uuid_parse, Address, ParseAddressError};
use crate::identity::PeerId;
use crate::presense::{
    anon, distinct_peers, has_peer, lemma_stale_ids, lemma_without_peer, peer_entry, peer_index,
    stale_ids, upsert_peer, without_peer, Msg, PeerPresenseView, Presense,
    PresenseView, PRESENSE_INTERVAL,
};

verus! {

broadcast use vstd::std_specs::hash::group_hash_axioms;

/// The address of a space.
#[derive(Clone, Copy, Debug, PartialEq, Eq, Hash, Structural)]
pub struct SpaceAddress(pub Address);

impl View for SpaceAddress {
    type V = u128;

    open spec fn view(&self) -> u128 {
        self.0@
    }
}

impl SpaceAddress {
    /// Reads an address in any notation that the UUID parser accepts.
    pub fn from_str(s: &str) -> (r: Result<SpaceAddress, ParseAddressError>)
        ensures
            match uuid_parse(s@) {
                Some(id) => r matches Ok(a) && a@ == id,
                None => r == Err::<SpaceAddress, ParseAddressError>(ParseAddressError::NotAUuid),
            },
    {
        match Address::from_str(s) {
            Ok(a) => Ok(SpaceAddress(a)),
            Err(e) => Err(e),
        }
    }

    /// The hyphenated lowercase notation of the address.
    pub fn to_string(&self) -> (s: String)
        ensures
            s@ == hyphenated(self@),
            uuid_parse(s@) == Some(self@),
    {
        self.0.to_string()
    }

    /// The short title under which the space is listed: the first three
    /// characters of its notation.
    pub fn title(&self) -> (s: String)
        ensures
            s@ == hyphenated(self@).take(3),
    {
        let full = self.to_string();
        let short = full.as_str().substring_char(0, 3);
        let s = String::from_str(short);
        assert(s@ =~= hyphenated(self@).take(3));
        s
    }
}

/// A chat message.
#[derive(Debug)]
pub struct Message {
    pub author: PeerId,
    pub text: String,
}

/// The mathematical value of a [`Message`].
pub struct MessageView {
    pub author: Seq<u8>,
    pub text: Seq<char>,
}

impl View for Message {
    type V = MessageView;

    open spec fn view(&self) -> MessageView {
        MessageView { author: self.author@, text: self.text@ }
    }
}

/// A space: its messages, oldest first, and who is present.
#[derive(Debug)]
pub struct Space {
    pub messages: Vec<Message>,
    pub presense: Presense,
}

/// The mathematical value of a [`Space`].
pub struct SpaceView {
    pub messages: Seq<MessageView>,
    pub presense: PresenseView,
}

impl View for Space {
    type V = SpaceView;

    open spec fn view(&self) -> SpaceView {
        SpaceView {
            messages: self.messages@.map_values(|m: Message| m@),
            presense: self.presense@,
        }
    }
}

/// A space without messages or reports, whose local report is the first one
/// of `local`, made at `now`.
pub open spec fn empty_space(local: Seq<u8>, now: i64) -> SpaceView {
    SpaceView {
        messages: Seq::empty(),
        presense: PresenseView {
            peers: Seq::empty(),
            local: PeerPresenseView { peer_id: local, alias: anon(), last_updated: now, is_typing: false },
        },
    }
}

/// A fresh space holds no messages and no reports of other peers, and its
/// local report is `local`'s first one: made at `now`, under the alias "anon",
/// and not typing.
pub proof fn lemma_empty_space(local: Seq<u8>, now: i64)
    ensures
        empty_space(local, now).messages.len() == 0,
        empty_space(local, now).presense.peers.len() == 0,
        empty_space(local, now).presense.local.peer_id == local,
        empty_space(local, now).presense.local.alias == anon(),
        empty_space(local, now).presense.local.last_updated == now,
        !empty_space(local, now).presense.local.is_typing,
{
}

/// The space at a known address is the one stored there; at an unknown one it
/// is a fresh space, whose local user is not typing.
pub proof fn lemma_space_at(spaces: Map<u128, SpaceView>, a: u128, local: Seq<u8>, now: i64)
    ensures
        spaces.contains_key(a) ==> space_at(spaces, a, local, now) == spaces[a],
        !spaces.contains_key(a) ==> space_at(spaces, a, local, now).messages.len() == 0
            && space_at(spaces, a, local, now).presense.peers.len() == 0
            && space_at(spaces, a, local, now).presense.local.peer_id == local
            && !space_at(spaces, a, local, now).presense.local.is_typing,
        with_space(spaces, a, local, now).dom() == spaces.dom().insert(a),
        forall|b: u128| b != a && #[trigger] spaces.contains_key(b) ==> with_space(spaces, a, local, now)[b] == spaces[b],
{
    lemma_empty_space(local, now);
}

/// Posting a message keeps every earlier message of the space in place and in
/// order, puts the new one last, written by the peer it came from, and leaves
/// presence as it was.
pub proof fn lemma_posted(s: SpaceView, text: Seq<char>, peer: Seq<u8>)
    ensures
        posted(s, text, peer).messages.len() == s.messages.len() + 1,
        forall|i: int| 0 <= i < s.messages.len() ==> #[trigger] posted(s, text, peer).messages[i] == s.messages[i],
        posted(s, text, peer).messages.last() == (MessageView { author: peer, text }),
        posted(s, text, peer).presense == s.presense,
{
}

impl Space {
    /// An empty space seen by `local`.
    pub fn new(local: PeerId, now: i64) -> (s: Space)
        ensures
            s@ == empty_space(local@, now),
            s@.messages.len() == 0,
            s@.presense.peers.len() == 0,
            s@.presense.local == (PeerPresenseView {
                peer_id: local@,
                alias: anon(),
                last_updated: now,
                is_typing: false,
            }),
    {
        let s = Space { messages: Vec::new(), presense: Presense::new(local, now) };
        assert(s@.messages =~= Seq::<MessageView>::empty());
        s
    }

    /// Appends `message` as written by `author`, whoever it claims to be from.
    pub fn add_message(&mut self, message: Message, author: PeerId)
        ensures
            final(self)@ == (SpaceView {
                messages: old(self)@.messages.push(MessageView { author: author@, text: message.text@ }),
                presense: old(self)@.presense,
            }),
    {
        let mut message = message;
        message.author = author;
        let ghost m = message@;
        self.messages.push(message);
        assert(self@.messages =~= old(self)@.messages.push(m));
    }

    /// The messages, oldest first.
    pub fn messages(&self) -> (m: &Vec<Message>)
        ensures
            m@.map_values(|x: Message| x@) == self@.messages,
    {
        &self.messages
    }
}

/// Something that happens in a space.
#[derive(Debug)]
pub enum Action {
    /// A message is posted.
    Message(Message),
    /// A peer reports its presence.
    Presense(Msg),
}

/// The space at `a` in `spaces`, or the one that would be created there.
pub open spec fn space_at(spaces: Map<u128, SpaceView>, a: u128, local: Seq<u8>, now: i64) -> SpaceView {
    if spaces.contains_key(a) {
        spaces[a]
    } else {
        empty_space(local, now)
    }
}

/// `spaces` with a space at `a` (an empty one is created where none is).
pub open spec fn with_space(spaces: Map<u128, SpaceView>, a: u128, local: Seq<u8>, now: i64) -> Map<u128, SpaceView> {
    spaces.insert(a, space_at(spaces, a, local, now))
}

/// The space `s` after the posting of a message with `text` by `peer`.
pub open spec fn posted(s: SpaceView, text: Seq<char>, peer: Seq<u8>) -> SpaceView {
    SpaceView {
        messages: s.messages.push(MessageView { author: peer, text }),
        presense: s.presense,
    }
}

/// The space `s` after `peer`'s report `p` arrives at `now`.
pub open spec fn reported(s: SpaceView, p: PeerPresenseView, peer: Seq<u8>, now: i64) -> SpaceView {
    SpaceView {
        messages: s.messages,
        presense: PresenseView {
            peers: upsert_peer(s.presense.peers, PeerPresenseView { peer_id: peer, last_updated: now, ..p }),
            local: s.presense.local,
        },
    }
}

/// The space `s` with its local report changed to `local`.
pub open spec fn with_local(s: SpaceView, local: PeerPresenseView) -> SpaceView {
    SpaceView { messages: s.messages, presense: PresenseView { peers: s.presense.peers, local } }
}

/// The space `s` without the reports of the peers in `ids`.
pub open spec fn without_peers(s: SpaceView, ids: Seq<Seq<u8>>) -> SpaceView
    decreases ids.len(),
{
    if ids.len() == 0 {
        s
    } else {
        let t = without_peers(s, ids.drop_last());
        SpaceView {
            messages: t.messages,
            presense: PresenseView {
                peers: without_peer(t.presense.peers, ids.last()),
                local: t.presense.local,
            },
        }
    }
}

/// Dropping the reports of the peers in `ids` leaves no report of them and every
/// other report, the messages and the local report as they were.
pub proof fn lemma_without_peers(s: SpaceView, ids: Seq<Seq<u8>>, id: Seq<u8>)
    requires
        distinct_peers(s.presense.peers),
    ensures
        distinct_peers(without_peers(s, ids).presense.peers),
        without_peers(s, ids).messages == s.messages,
        without_peers(s, ids).presense.local == s.presense.local,
        peer_entry(without_peers(s, ids).presense.peers, id) == if ids.contains(id) {
            None
        } else {
            peer_entry(s.presense.peers, id)
        },
    decreases ids.len(),
{
    if ids.len() > 0 {
        let init = ids.drop_last();
        lemma_without_peers(s, init, id);
        let t = without_peers(s, init);
        lemma_without_peer(t.presense.peers, ids.last(), id);
        if ids.contains(id) && !init.contains(id) {
            let k = choose|k: int| 0 <= k < ids.len() && ids[k] == id;
            if k < init.len() {
                assert(init[k] == id);
            }
        }
        if init.contains(id) {
            let k = choose|k: int| 0 <= k < init.len() && init[k] == id;
            assert(ids[k] == id);
        }
        if !ids.contains(id) {
            assert(ids[ids.len() - 1] == ids.last());
        }
    }
}

/// After the stale reports are dropped at `now`, a peer's report is still
/// there exactly when it was there and is not stale.
pub proof fn lemma_remove_expired(s: SpaceView, now: i64, id: Seq<u8>)
    requires
        distinct_peers(s.presense.peers),
    ensures
        peer_entry(without_peers(s, stale_ids(s.presense.peers, now)).presense.peers, id)
            == match peer_entry(s.presense.peers, id) {
            Some(p) => if p.is_stale(now) {
                None
            } else {
                Some(p)
            },
            None => None,
        },
{
    let peers = s.presense.peers;
    lemma_without_peers(s, stale_ids(peers, now), id);
    lemma_stale_ids(peers, now, id);
    if has_peer(peers, id) {
        let k = peer_index(peers, id);
        if exists|i: int| 0 <= i < peers.len() && #[trigger] peers[i].peer_id == id && peers[i].is_stale(now) {
            let i = choose|i: int| 0 <= i < peers.len() && #[trigger] peers[i].peer_id == id && peers[i].is_stale(now);
            if i != k {
                assert(peers[i].peer_id == peers[k].peer_id);
            }
        }
    } else {
        if exists|i: int| 0 <= i < peers.len() && #[trigger] peers[i].peer_id == id && peers[i].is_stale(now) {
            let i = choose|i: int| 0 <= i < peers.len() && #[trigger] peers[i].peer_id == id && peers[i].is_stale(now);
            assert(has_peer(peers, id));
        }
    }
}

/// All spaces the client knows, by address.
pub struct Universe {
    spaces: HashMap<u128, Space>,
    local: PeerId,
}

impl View for Universe {
    type V = Map<u128, SpaceView>;

    closed spec fn view(&self) -> Map<u128, SpaceView> {
        Map::new(|a: u128| self.spaces@.contains_key(a), |a: u128| self.spaces@[a]@)
    }
}

impl Universe {
    /// The peer id of the local user, whose reports new spaces start with.
    pub closed spec fn local_peer(&self) -> Seq<u8> {
        self.local@
    }

    /// No spaces yet.
    pub fn new(local: PeerId) -> (u: Universe)
        ensures
            u@ == Map::<u128, SpaceView>::empty(),
            u.local_peer() == local@,
    {
        let u = Universe { spaces: HashMap::new(), local };
        assert(u@ =~= Map::<u128, SpaceView>::empty());
        u
    }

    /// The space at `address`, if the client knows it.
    pub fn get(&self, address: &SpaceAddress) -> (r: Option<&Space>)
        ensures
            self@.contains_key(address@) ==> (r matches Some(s) && s@ == self@[address@]),
            !self@.contains_key(address@) ==> r is None,
    {
        self.spaces.get(&address.0.id)
    }

    /// The addresses of all known spaces, each once.
    pub fn iter(&self) -> (r: Vec<SpaceAddress>)
        ensures
            r@.map_values(|a: SpaceAddress| a@).no_duplicates(),
            r@.map_values(|a: SpaceAddress| a@).to_set() == self@.dom(),
    {
        let mut r: Vec<SpaceAddress> = Vec::new();
        for k in it: self.spaces.keys()
            invariant
                r@.len() == it.index(),
                forall|j: int| 0 <= j < it.index() ==> #[trigger] r@[j]@ == *it.seq()[j],
                it.seq().unref().no_duplicates(),
                it.seq().unref().to_set() == self.spaces@.dom(),
                it.seq().len() == self.spaces@.dom().len(),
            ensures
                r@.map_values(|a: SpaceAddress| a@) == it.seq().unref(),
                it.seq().unref().no_duplicates(),
                it.seq().unref().to_set() == self.spaces@.dom(),
        {
            r.push(SpaceAddress(Address { id: *k }));
        }
        assert(self@.dom() =~= self.spaces@.dom());
        r
    }

    /// Makes sure that a space exists at `address`; an empty one is created
    /// where none is.
    pub fn space_mut(&mut self, address: &SpaceAddress, now: i64)
        ensures
            final(self)@ == with_space(old(self)@, address@, old(self).local_peer(), now),
            final(self).local_peer() == old(self).local_peer(),
    {
        let space = self.take_space(address, now);
        self.put_space(address, space);
    }

    /// Takes the space at `address` out (an empty one if there is none).
    fn take_space(&mut self, address: &SpaceAddress, now: i64) -> (s: Space)
        ensures
            s@ == space_at(old(self)@, address@, old(self).local_peer(), now),
            final(self)@ == old(self)@.remove(address@),
            final(self).local_peer() == old(self).local_peer(),
    {
        let s = match self.spaces.remove(&address.0.id) {
            Some(s) => s,
            None => Space::new(self.local.clone(), now),
        };
        assert(self@ =~= old(self)@.remove(address@));
        s
    }

    /// Puts `space` at `address`.
    fn put_space(&mut self, address: &SpaceAddress, space: Space)
        ensures
            final(self)@ == old(self)@.insert(address@, space@),
            final(self).local_peer() == old(self).local_peer(),
    {
        let ghost v = space@;
        self.spaces.insert(address.0.id, space);
        assert(self@ =~= old(self)@.insert(address@, v));
    }

    /// Creates an empty space at a fresh random address and returns the address.
    pub fn create_new_space(&mut self, now: i64) -> (a: SpaceAddress)
        ensures
            is_random_uuid(a@),
            final(self)@ == with_space(old(self)@, a@, old(self).local_peer(), now),
            final(self).local_peer() == old(self).local_peer(),
    {
        let address = SpaceAddress(Address::new());
        self.space_mut(&address, now);
        address
    }

    /// Puts `space` at `address`, in place of what was there.
    pub fn load_space(&mut self, address: &SpaceAddress, space: Space)
        ensures
            final(self)@ == old(self)@.insert(address@, space@),
            final(self).local_peer() == old(self).local_peer(),
    {
        self.put_space(address, space);
    }

    /// Applies something that `peer` did in the space at `address`, received
    /// at `now`. A message is recorded as written by `peer` and a presence
    /// report as coming from `peer`, whatever they claim.
    pub fn handle_action(&mut self, action: Action, peer: PeerId, address: &SpaceAddress, now: i64)
        ensures
            final(self).local_peer() == old(self).local_peer(),
            final(self)@ == old(self)@.insert(
                address@,
                match action {
                    Action::Message(m) => posted(
                        space_at(old(self)@, address@, old(self).local_peer(), now),
                        m.text@,
                        peer@,
                    ),
                    Action::Presense(Msg::Presense(p)) => reported(
                        space_at(old(self)@, address@, old(self).local_peer(), now),
                        p@,
                        peer@,
                        now,
                    ),
                },
            ),
    {
        let mut space = self.take_space(address, now);
        match action {
            Action::Message(message) => {
                space.add_message(message, peer);
            },
            Action::Presense(msg) => {
                msg.apply(&mut space, &peer, now);
            },
        }
        self.put_space(address, space);
    }

    /// The local user's alias in the space at `address`; "anon" in a space
    /// the client does not know.
    pub fn local_alias(&self, address: &SpaceAddress) -> (s: String)
        ensures
            s@ == if self@.contains_key(address@) {
                self@[address@].presense.local.alias
            } else {
                anon()
            },
    {
        match self.get(address) {
            Some(space) => space.presense.local().alias.clone(),
            None => {
                let s = String::from_str("anon");
                proof {
                    reveal_strlit("anon");
                }
                assert(s@ =~= anon());
                s
            },
        }
    }

    /// Sets the local user's alias in the space at `address`.
    pub fn set_local_alias(&mut self, address: &SpaceAddress, alias: String, now: i64)
        ensures
            final(self).local_peer() == old(self).local_peer(),
            final(self)@ == old(self)@.insert(
                address@,
                with_local(
                    space_at(old(self)@, address@, old(self).local_peer(), now),
                    PeerPresenseView {
                        alias: alias@,
                        ..space_at(old(self)@, address@, old(self).local_peer(), now).presense.local
                    },
                ),
            ),
    {
        let mut space = self.take_space(address, now);
        let mut local = space.presense.local().clone();
        local.alias = alias;
        space.presense.set_local(local);
        self.put_space(address, space);
    }

    /// The local user types in the space at `address`: the local report says
    /// so, as of `now`.
    pub fn start_typing(&mut self, address: &SpaceAddress, now: i64)
        ensures
            final(self).local_peer() == old(self).local_peer(),
            final(self)@ == old(self)@.insert(
                address@,
                with_local(
                    space_at(old(self)@, address@, old(self).local_peer(), now),
                    PeerPresenseView {
                        is_typing: true,
                        last_updated: now,
                        ..space_at(old(self)@, address@, old(self).local_peer(), now).presense.local
                    },
                ),
            ),
    {
        let mut space = self.take_space(address, now);
        let mut local = space.presense.local().clone();
        local.is_typing = true;
        local.last_updated = now;
        space.presense.set_local(local);
        self.put_space(address, space);
    }

    /// Clears the local typing indicator in the space at `address` once the
    /// local report is a full presence interval old; otherwise changes nothing
    /// but creating the space where there was none.
    pub fn stop_typing_if_idle(&mut self, address: &SpaceAddress, now: i64)
        ensures
            final(self).local_peer() == old(self).local_peer(),
            ({
                let s = space_at(old(self)@, address@, old(self).local_peer(), now);
                final(self)@ == old(self)@.insert(
                    address@,
                    if now - s.presense.local.last_updated >= PRESENSE_INTERVAL as int * 1000 {
                        with_local(
                            s,
                            PeerPresenseView { is_typing: false, last_updated: now, ..s.presense.local },
                        )
                    } else {
                        s
                    },
                )
            }),
    {
        let mut space = self.take_space(address, now);
        let idle: i128 = (now as i128) - (space.presense.local().last_updated as i128);
        if idle >= PRESENSE_INTERVAL as i128 * 1000 {
            let mut local = space.presense.local().clone();
            local.is_typing = false;
            local.last_updated = now;
            space.presense.set_local(local);
        }
        self.put_space(address, space);
    }

    /// Drops the reports that are stale at `now` from the space at `address`
    /// and returns the peers they came from.
    pub fn remove_expired(&mut self, address: &SpaceAddress, now: i64) -> (ids: Vec<PeerId>)
        ensures
            final(self).local_peer() == old(self).local_peer(),
            ({
                let s = space_at(old(self)@, address@, old(self).local_peer(), now);
                &&& ids@.map_values(|p: PeerId| p@) == stale_ids(s.presense.peers, now)
                &&& final(self)@ == old(self)@.insert(address@, without_peers(s, stale_ids(s.presense.peers, now)))
            }),
    {
        let mut space = self.take_space(address, now);
        let ids = space.presense.expired(now);
        let ghost s0 = space@;
        let ghost idv = ids@.map_values(|p: PeerId| p@);
        let mut i: usize = 0;
        while i < ids.len()
            invariant
                i <= ids@.len(),
                idv == ids@.map_values(|p: PeerId| p@),
                space@ == without_peers(s0, idv.take(i as int)),
            decreases ids@.len() - i,
        {
            space.presense.remove(&ids[i]);
            assert(idv.take(i + 1).drop_last() =~= idv.take(i as int));
            i = i + 1;
        }
        assert(idv.take(idv.len() as int) =~= idv);
        self.put_space(address, space);
        ids
    }
}

} // verus!
