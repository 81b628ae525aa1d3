//! Who is present in a space: the last presence report of each peer, and the
//! local peer's own report (alias, typing indicator).
//!
//! Times are milliseconds since the Unix epoch, handed in by the caller.

use vstd::prelude::*;
use vstd::string::*;

use crate::identity::PeerId;
use crate::space::{Space, SpaceView};

verus! {

/// Seconds between two presence reports of a peer.
pub const PRESENSE_INTERVAL: u32 = 3;

/// A report older than this many milliseconds is stale: one interval and one
/// second of slack.
pub open spec fn stale_after_ms() -> int {
    (PRESENSE_INTERVAL as int + 1) * 1000
}

/// What a peer tells the others about itself.
#[derive(Debug)]
pub struct PeerPresense {
    pub peer_id: PeerId,
    pub alias: String,
    pub last_updated: i64,
    pub is_typing: bool,
}

/// The mathematical value of a [`PeerPresense`].
pub struct PeerPresenseView {
    pub peer_id: Seq<u8>,
    pub alias: Seq<char>,
    pub last_updated: i64,
    pub is_typing: bool,
}

impl View for PeerPresense {
    type V = PeerPresenseView;

    open spec fn view(&self) -> PeerPresenseView {
        PeerPresenseView {
            peer_id: self.peer_id@,
            alias: self.alias@,
            last_updated: self.last_updated,
            is_typing: self.is_typing,
        }
    }
}

/// The alias of a peer that has not chosen one.
pub open spec fn anon() -> Seq<char> {
    seq!['a', 'n', 'o', 'n']
}

fn anon_string() -> (s: String)
    ensures
        s@ == anon(),
{
    let s = String::from_str("anon");
    proof {
        reveal_strlit("anon");
    }
    assert(s@ =~= anon());
    s
}

impl PeerPresense {
    /// The first report of `peer_id`: alias "anon", not typing, made at `now`.
    pub fn new(peer_id: PeerId, now: i64) -> (p: PeerPresense)
        ensures
            p@ == (PeerPresenseView { peer_id: peer_id@, alias: anon(), last_updated: now, is_typing: false }),
    {
        PeerPresense { peer_id, alias: anon_string(), last_updated: now, is_typing: false }
    }

    /// Records this report in `space`, stamped with the time of arrival.
    pub fn apply(&self, space: &mut Space, now: i64)
        ensures
            final(space)@ == (SpaceView {
                messages: old(space)@.messages,
                presense: PresenseView {
                    peers: upsert_peer(old(space)@.presense.peers, self@.stamped(now)),
                    local: old(space)@.presense.local,
                },
            }),
    {
        let mut p = self.clone();
        p.last_updated = now;
        space.presense.upsert(p);
    }
}

impl Clone for PeerPresense {
    fn clone(&self) -> (c: PeerPresense)
        ensures
            c@ == self@,
    {
        PeerPresense {
            peer_id: self.peer_id.clone(),
            alias: self.alias.clone(),
            last_updated: self.last_updated,
            is_typing: self.is_typing,
        }
    }
}

impl PeerPresenseView {
    /// The same report, marked as received at `now`.
    pub open spec fn stamped(self, now: i64) -> PeerPresenseView {
        PeerPresenseView { last_updated: now, ..self }
    }

    /// Whether the report is older than the staleness limit at `now`.
    pub open spec fn is_stale(self, now: i64) -> bool {
        now - self.last_updated > stale_after_ms()
    }
}

/// A presence message sent to a space.
#[derive(Debug)]
pub enum Msg {
    Presense(PeerPresense),
}

impl Msg {
    /// Records the report as coming from `peer_id` (whatever the report says),
    /// received at `now`.
    pub fn apply(self, space: &mut Space, peer_id: &PeerId, now: i64)
        ensures
            match self {
                Msg::Presense(p) => final(space)@ == (SpaceView {
                    messages: old(space)@.messages,
                    presense: PresenseView {
                        peers: upsert_peer(
                            old(space)@.presense.peers,
                            PeerPresenseView { peer_id: peer_id@, last_updated: now, ..p@ },
                        ),
                        local: old(space)@.presense.local,
                    },
                }),
            },
    {
        match self {
            Msg::Presense(mut p) => {
                p.peer_id = peer_id.clone();
                p.apply(space, now);
            },
        }
    }
}

/// Peer ids of `peers` are pairwise different.
pub open spec fn distinct_peers(peers: Seq<PeerPresenseView>) -> bool {
    forall|i: int, j: int|
        0 <= i < peers.len() && 0 <= j < peers.len() && i != j ==> peers[i].peer_id
            != peers[j].peer_id
}

/// Whether some report in `peers` is from `id`.
pub open spec fn has_peer(peers: Seq<PeerPresenseView>, id: Seq<u8>) -> bool {
    exists|i: int| 0 <= i < peers.len() && #[trigger] peers[i].peer_id == id
}

/// The position of the report from `id` (meaningful when `has_peer`).
pub open spec fn peer_index(peers: Seq<PeerPresenseView>, id: Seq<u8>) -> int {
    choose|i: int| 0 <= i < peers.len() && #[trigger] peers[i].peer_id == id
}

/// The report from `id`, if any.
pub open spec fn peer_entry(peers: Seq<PeerPresenseView>, id: Seq<u8>) -> Option<PeerPresenseView> {
    if has_peer(peers, id) {
        Some(peers[peer_index(peers, id)])
    } else {
        None
    }
}

/// `peers` with the report `p` in place of the one from the same peer, or
/// added at the end if that peer had none.
pub open spec fn upsert_peer(peers: Seq<PeerPresenseView>, p: PeerPresenseView) -> Seq<PeerPresenseView> {
    if has_peer(peers, p.peer_id) {
        peers.update(peer_index(peers, p.peer_id), p)
    } else {
        peers.push(p)
    }
}

/// `peers` without the report from `id`.
pub open spec fn without_peer(peers: Seq<PeerPresenseView>, id: Seq<u8>) -> Seq<PeerPresenseView> {
    if has_peer(peers, id) {
        peers.remove(peer_index(peers, id))
    } else {
        peers
    }
}

/// The ids of the stale reports in `peers`, in order.
pub open spec fn stale_ids(peers: Seq<PeerPresenseView>, now: i64) -> Seq<Seq<u8>>
    decreases peers.len(),
{
    if peers.len() == 0 {
        Seq::empty()
    } else {
        let rest = stale_ids(peers.drop_last(), now);
        if peers.last().is_stale(now) {
            rest.push(peers.last().peer_id)
        } else {
            rest
        }
    }
}

/// The aliases of the peers other than `local` that are typing, in order.
pub open spec fn typing_aliases(peers: Seq<PeerPresenseView>, local: Seq<u8>) -> Seq<Seq<char>>
    decreases peers.len(),
{
    if peers.len() == 0 {
        Seq::empty()
    } else {
        let rest = typing_aliases(peers.drop_last(), local);
        if peers.last().is_typing && peers.last().peer_id != local {
            rest.push(peers.last().alias)
        } else {
            rest
        }
    }
}

/// `names` joined with `sep` between consecutive names.
pub open spec fn join_with(names: Seq<Seq<char>>, sep: Seq<char>) -> Seq<char>
    decreases names.len(),
{
    if names.len() == 0 {
        Seq::empty()
    } else if names.len() == 1 {
        names[0]
    } else {
        join_with(names.drop_last(), sep) + sep + names.last()
    }
}

/// The separator of the typing indicator.
pub open spec fn comma_space() -> Seq<char> {
    seq![',', ' ']
}

/// Recording a report and then looking up its peer gives the report back;
/// every other peer's report stays as it was, and peers stay distinct.
pub proof fn lemma_upsert_reads_back(peers: Seq<PeerPresenseView>, p: PeerPresenseView, id: Seq<u8>)
    requires
        distinct_peers(peers),
    ensures
        distinct_peers(upsert_peer(peers, p)),
        peer_entry(upsert_peer(peers, p), p.peer_id) == Some(p),
        id != p.peer_id ==> peer_entry(upsert_peer(peers, p), id) == peer_entry(peers, id),
{
    let u = upsert_peer(peers, p);
    if has_peer(peers, p.peer_id) {
        let k = peer_index(peers, p.peer_id);
        assert(u[k] == p);
        assert(has_peer(u, p.peer_id));
        let j = peer_index(u, p.peer_id);
        if j != k {
            assert(peers[j].peer_id == p.peer_id);
            assert(peers[k].peer_id == p.peer_id);
        }
        if id != p.peer_id {
            if has_peer(peers, id) {
                let i = peer_index(peers, id);
                assert(u[i] == peers[i]);
                assert(has_peer(u, id));
                let i2 = peer_index(u, id);
                assert(u[i2].peer_id == id);
                if i2 != i {
                    assert(peers[i2].peer_id == id);
                }
            } else {
                if has_peer(u, id) {
                    let i2 = peer_index(u, id);
                    assert(peers[i2].peer_id == id);
                }
            }
        }
    } else {
        let k = peers.len() as int;
        assert(u[k] == p);
        assert(has_peer(u, p.peer_id));
        let j = peer_index(u, p.peer_id);
        if j != k {
            assert(peers[j].peer_id == p.peer_id);
        }
        if id != p.peer_id {
            if has_peer(peers, id) {
                let i = peer_index(peers, id);
                assert(u[i] == peers[i]);
                assert(has_peer(u, id));
                let i2 = peer_index(u, id);
                if i2 != i {
                    assert(u[i2].peer_id == id);
                    assert(peers[i2].peer_id == id);
                }
            } else {
                if has_peer(u, id) {
                    let i2 = peer_index(u, id);
                    assert(peers[i2].peer_id == id);
                }
            }
        }
    }
}

/// Dropping the report of `id` leaves no report of `id` and every other
/// report as it was; peers stay distinct.
pub proof fn lemma_without_peer(peers: Seq<PeerPresenseView>, id: Seq<u8>, other: Seq<u8>)
    requires
        distinct_peers(peers),
    ensures
        distinct_peers(without_peer(peers, id)),
        peer_entry(without_peer(peers, id), id) is None,
        other != id ==> peer_entry(without_peer(peers, id), other) == peer_entry(peers, other),
{
    let w = without_peer(peers, id);
    if has_peer(peers, id) {
        let k = peer_index(peers, id);
        assert forall|i: int, j: int|
            0 <= i < w.len() && 0 <= j < w.len() && i != j implies w[i].peer_id != w[j].peer_id by {
            let oi = if i < k { i } else { i + 1 };
            let oj = if j < k { j } else { j + 1 };
            assert(w[i] == peers[oi]);
            assert(w[j] == peers[oj]);
        }
        if has_peer(w, id) {
            let i = peer_index(w, id);
            let oi = if i < k { i } else { i + 1 };
            assert(w[i] == peers[oi]);
        }
        if other != id {
            if has_peer(peers, other) {
                let i = peer_index(peers, other);
                assert(i != k);
                let wi = if i < k { i } else { i - 1 };
                assert(w[wi] == peers[i]);
                assert(has_peer(w, other));
                let j = peer_index(w, other);
                let oj = if j < k { j } else { j + 1 };
                assert(w[j] == peers[oj]);
            } else if has_peer(w, other) {
                let j = peer_index(w, other);
                let oj = if j < k { j } else { j + 1 };
                assert(w[j] == peers[oj]);
            }
        }
    }
}

/// The stale reports are exactly those listed by `stale_ids`.
pub proof fn lemma_stale_ids(peers: Seq<PeerPresenseView>, now: i64, id: Seq<u8>)
    ensures
        stale_ids(peers, now).contains(id) <==> exists|i: int|
            0 <= i < peers.len() && #[trigger] peers[i].peer_id == id && peers[i].is_stale(now),
    decreases peers.len(),
{
    if peers.len() > 0 {
        let init = peers.drop_last();
        lemma_stale_ids(init, now, id);
        let rest = stale_ids(init, now);
        if exists|i: int| 0 <= i < peers.len() && #[trigger] peers[i].peer_id == id && peers[i].is_stale(now) {
            let i = choose|i: int| 0 <= i < peers.len() && #[trigger] peers[i].peer_id == id && peers[i].is_stale(now);
            if i < peers.len() - 1 {
                assert(init[i] == peers[i]);
                let r = stale_ids(peers, now);
                let k = choose|k: int| 0 <= k < rest.len() && rest[k] == id;
                assert(r[k] == rest[k]);
            } else {
                let r = stale_ids(peers, now);
                assert(r[r.len() - 1] == id);
            }
        }
        if stale_ids(peers, now).contains(id) {
            let r = stale_ids(peers, now);
            let k = choose|k: int| 0 <= k < r.len() && r[k] == id;
            if peers.last().is_stale(now) && k == r.len() - 1 {
                assert(peers[peers.len() - 1].peer_id == id);
            } else {
                assert(rest[k] == id);
                assert(rest.contains(id));
                let i = choose|i: int| 0 <= i < init.len() && #[trigger] init[i].peer_id == id && init[i].is_stale(now);
                assert(peers[i] == init[i]);
            }
        }
    }
}

/// Presence in a space: the reports of the other peers, and the local one.
#[derive(Debug)]
pub struct Presense {
    peers: Vec<PeerPresense>,
    local: PeerPresense,
}

/// The mathematical value of a [`Presense`].
pub struct PresenseView {
    pub peers: Seq<PeerPresenseView>,
    pub local: PeerPresenseView,
}

impl View for Presense {
    type V = PresenseView;

    closed spec fn view(&self) -> PresenseView {
        PresenseView { peers: self.peers@.map_values(|p: PeerPresense| p@), local: self.local@ }
    }
}

impl Presense {
    #[verifier::type_invariant]
    spec fn well_formed(self) -> bool {
        distinct_peers(self.peers@.map_values(|p: PeerPresense| p@))
    }

    /// No reports yet; the local report is the first one of `local`, made at `now`.
    pub fn new(local: PeerId, now: i64) -> (p: Presense)
        ensures
            p@.peers == Seq::<PeerPresenseView>::empty(),
            p@.local == (PeerPresenseView { peer_id: local@, alias: anon(), last_updated: now, is_typing: false }),
    {
        let p = Presense { peers: Vec::new(), local: PeerPresense::new(local, now) };
        assert(p@.peers =~= Seq::<PeerPresenseView>::empty());
        p
    }

    /// The reports of the other peers.
    pub fn peers(&self) -> (peers: &Vec<PeerPresense>)
        ensures
            peers@.map_values(|p: PeerPresense| p@) == self@.peers,
            distinct_peers(self@.peers),
    {
        proof {
            use_type_invariant(self);
        }
        &self.peers
    }

    /// The local user's own report.
    pub fn local(&self) -> (l: &PeerPresense)
        ensures
            l@ == self@.local,
    {
        &self.local
    }

    /// Replaces the local user's own report.
    pub fn set_local(&mut self, local: PeerPresense)
        ensures
            final(self)@ == (PresenseView { peers: old(self)@.peers, local: local@ }),
    {
        proof {
            use_type_invariant(&*self);
        }
        self.local = local;
    }

    /// The position of the report from `id`, if any.
    pub fn find(&self, id: &PeerId) -> (r: Option<usize>)
        ensures
            r is None <==> !has_peer(self@.peers, id@),
            r matches Some(i) ==> i < self@.peers.len() && i == peer_index(self@.peers, id@),
    {
        proof {
            use_type_invariant(self);
        }
        let ghost v = self@.peers;
        let mut i: usize = 0;
        while i < self.peers.len()
            invariant
                i <= self.peers@.len(),
                v == self.peers@.map_values(|p: PeerPresense| p@),
                distinct_peers(v),
                forall|j: int| 0 <= j < i ==> v[j].peer_id != id@,
            decreases self.peers@.len() - i,
        {
            if self.peers[i].peer_id.same(id) {
                assert(v[i as int].peer_id == id@);
                assert(has_peer(v, id@));
                let ghost k = peer_index(v, id@);
                assert(v[k].peer_id == id@);
                assert(k == i);
                return Some(i);
            }
            i = i + 1;
        }
        assert(!has_peer(v, id@));
        None
    }

    /// The report from `id`, if any.
    pub fn get(&self, id: &PeerId) -> (r: Option<&PeerPresense>)
        ensures
            match peer_entry(self@.peers, id@) {
                Some(p) => r matches Some(q) && q@ == p,
                None => r is None,
            },
    {
        match self.find(id) {
            Some(i) => Some(&self.peers[i]),
            None => None,
        }
    }

    /// Puts `p` in place of the report from the same peer, or adds it.
    pub fn upsert(&mut self, p: PeerPresense)
        ensures
            final(self)@ == (PresenseView { peers: upsert_peer(old(self)@.peers, p@), local: old(self)@.local }),
    {
        proof {
            use_type_invariant(&*self);
        }
        let ghost old_v = self@.peers;
        let ghost pv = p@;
        let found = self.find(&p.peer_id);
        let mut peers: Vec<PeerPresense> = Vec::new();
        std::mem::swap(&mut peers, &mut self.peers);
        match found {
            Some(i) => {
                peers.set(i, p);
                assert(peers@.map_values(|q: PeerPresense| q@) =~= old_v.update(i as int, pv));
            },
            None => {
                peers.push(p);
                assert(peers@.map_values(|q: PeerPresense| q@) =~= old_v.push(pv));
            },
        }
        self.peers = peers;
    }

    /// Drops the report from `id`, if any.
    pub fn remove(&mut self, id: &PeerId)
        ensures
            final(self)@ == (PresenseView { peers: without_peer(old(self)@.peers, id@), local: old(self)@.local }),
    {
        proof {
            use_type_invariant(&*self);
        }
        let ghost old_v = self@.peers;
        let found = self.find(id);
        let mut peers: Vec<PeerPresense> = Vec::new();
        std::mem::swap(&mut peers, &mut self.peers);
        match found {
            Some(i) => {
                peers.remove(i);
                assert(peers@.map_values(|q: PeerPresense| q@) =~= old_v.remove(i as int));
            },
            None => {},
        }
        self.peers = peers;
    }

    /// The ids of the peers whose reports are stale at `now`.
    pub fn expired(&self, now: i64) -> (ids: Vec<PeerId>)
        ensures
            ids@.map_values(|p: PeerId| p@) == stale_ids(self@.peers, now),
    {
        let ghost v = self@.peers;
        let mut ids: Vec<PeerId> = Vec::new();
        let mut i: usize = 0;
        while i < self.peers.len()
            invariant
                i <= self.peers@.len(),
                v == self.peers@.map_values(|p: PeerPresense| p@),
                ids@.map_values(|p: PeerId| p@) == stale_ids(v.take(i as int), now),
            decreases self.peers@.len() - i,
        {
            let p = &self.peers[i];
            assert(v.take(i + 1).drop_last() =~= v.take(i as int));
            let age: i128 = (now as i128) - (p.last_updated as i128);
            if age > (PRESENSE_INTERVAL as i128 + 1) * 1000 {
                ids.push(p.peer_id.clone());
                assert(ids@.map_values(|q: PeerId| q@) =~= stale_ids(v.take(i as int), now).push(p.peer_id@));
            }
            i = i + 1;
        }
        assert(v.take(v.len() as int) =~= v);
        ids
    }

    /// The typing indicator: aliases of the other peers that are typing,
    /// separated by ", ".
    pub fn typing_names(&self, local: &PeerId) -> (s: String)
        ensures
            s@ == join_with(typing_aliases(self@.peers, local@), comma_space()),
    {
        let ghost v = self@.peers;
        let mut s = String::new();
        let mut any = false;
        let sep = ", ";
        proof {
            reveal_strlit(", ");
        }
        assert(sep@ =~= comma_space());
        let mut i: usize = 0;
        while i < self.peers.len()
            invariant
                i <= self.peers@.len(),
                v == self.peers@.map_values(|p: PeerPresense| p@),
                sep@ == comma_space(),
                any == (typing_aliases(v.take(i as int), local@).len() > 0),
                s@ == join_with(typing_aliases(v.take(i as int), local@), comma_space()),
            decreases self.peers@.len() - i,
        {
            let p = &self.peers[i];
            assert(v.take(i + 1).drop_last() =~= v.take(i as int));
            let ghost names = typing_aliases(v.take(i as int), local@);
            assert(v.take(i + 1).last() == v[i as int]);
            if p.is_typing && !p.peer_id.same(local) {
                if any {
                    s.append(sep);
                }
                s.append(p.alias.as_str());
                any = true;
                proof {
                    let more = names.push(v[i as int].alias);
                    assert(typing_aliases(v.take(i + 1), local@) == more);
                    assert(more.drop_last() =~= names);
                    if names.len() == 0 {
                        assert(s@ =~= more[0]);
                    } else {
                        assert(s@ =~= join_with(names, comma_space()) + comma_space() + more.last());
                    }
                }
            }
            i = i + 1;
        }
        assert(v.take(v.len() as int) =~= v);
        s
    }

    /// The alias of `author` as last reported, or "anon" for a peer without
    /// report.
    pub fn alias_of(&self, author: &PeerId) -> (s: String)
        ensures
            s@ == match peer_entry(self@.peers, author@) {
                Some(p) => p.alias,
                None => anon(),
            },
    {
        match self.get(author) {
            Some(p) => p.alias.clone(),
            None => anon_string(),
        }
    }
}

} // verus!
