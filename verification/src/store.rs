//! Rooms of a group chat fed by the node's responses: a ping in a room is
//! answered by noting "pong" there, a pong by noting "ping".

use vstd::prelude::*;
use vstd::string::*;

verus! {

/// A room: the texts noted in it, oldest first.
#[derive(Debug)]
pub struct Room {
    pub messages: Vec<String>,
}

/// A room with its identifier.
pub struct RoomView {
    pub id: Seq<char>,
    pub messages: Seq<Seq<char>>,
}

/// All rooms, in the order in which they were first noted.
#[derive(Debug)]
pub struct State {
    rooms: Vec<(String, Room)>,
}

impl View for State {
    type V = Seq<RoomView>;

    closed spec fn view(&self) -> Seq<RoomView> {
        self.rooms@.map_values(|r: (String, Room)| room_view(r))
    }
}

/// What a group message asks for.
#[derive(Clone, Copy, Debug, PartialEq, Eq, Structural)]
pub enum GroupMsg {
    Ping,
    Pong,
}

/// A message to the room `id`.
#[derive(Debug)]
pub struct Group {
    pub id: String,
    pub msg: GroupMsg,
}

/// A response of the node.
#[derive(Debug)]
pub enum Response {
    Group(Group),
}

/// What the store is asked to process.
#[derive(Debug)]
pub enum Msg {
    Response(Response),
    /// (Re)connect to the node; the connection itself is made by the caller.
    InitListener,
}

/// The mathematical value of a room with its identifier.
pub open spec fn room_view(r: (String, Room)) -> RoomView {
    RoomView { id: r.0@, messages: r.1.messages@.map_values(|s: String| s@) }
}

/// Whether some room of `rooms` has the identifier `id`.
pub open spec fn has_room(rooms: Seq<RoomView>, id: Seq<char>) -> bool {
    exists|i: int| 0 <= i < rooms.len() && #[trigger] rooms[i].id == id
}

/// Room identifiers of `rooms` are pairwise different.
pub open spec fn distinct_rooms(rooms: Seq<RoomView>) -> bool {
    forall|i: int, j: int|
        0 <= i < rooms.len() && 0 <= j < rooms.len() && i != j ==> rooms[i].id != rooms[j].id
}

/// The position of the first room with identifier `id`.
pub open spec fn room_index(rooms: Seq<RoomView>, id: Seq<char>) -> int {
    choose|i: int|
        0 <= i < rooms.len() && #[trigger] rooms[i].id == id && forall|j: int|
            0 <= j < i ==> rooms[j].id != id
}

/// `rooms` after noting `text` in the room `id` (created at the end if missing).
pub open spec fn noted(rooms: Seq<RoomView>, id: Seq<char>, text: Seq<char>) -> Seq<RoomView> {
    if has_room(rooms, id) {
        let i = room_index(rooms, id);
        rooms.update(i, RoomView { id, messages: rooms[i].messages.push(text) })
    } else {
        rooms.push(RoomView { id, messages: seq![text] })
    }
}

/// The text noted in answer to `msg`.
pub open spec fn answer(msg: GroupMsg) -> Seq<char> {
    match msg {
        GroupMsg::Ping => seq!['p', 'o', 'n', 'g'],
        GroupMsg::Pong => seq!['p', 'i', 'n', 'g'],
    }
}

/// Where a room `id` exists, there is a first one.
pub proof fn lemma_first_room(rooms: Seq<RoomView>, id: Seq<char>)
    requires
        has_room(rooms, id),
    ensures
        0 <= room_index(rooms, id) < rooms.len(),
        rooms[room_index(rooms, id)].id == id,
        forall|j: int| 0 <= j < room_index(rooms, id) ==> rooms[j].id != id,
    decreases rooms.len(),
{
    if rooms[0].id == id {
        assert(0 <= 0 < rooms.len() && rooms[0].id == id && forall|j: int|
            0 <= j < 0 ==> rooms[j].id != id);
    } else {
        let tail = rooms.drop_first();
        let k = choose|k: int| 0 <= k < rooms.len() && #[trigger] rooms[k].id == id;
        assert(tail[k - 1] == rooms[k]);
        assert(has_room(tail, id));
        lemma_first_room(tail, id);
        let i = room_index(tail, id);
        assert(rooms[i + 1] == tail[i]);
        assert forall|j: int| 0 <= j < i + 1 implies rooms[j].id != id by {
            if j > 0 {
                assert(rooms[j] == tail[j - 1]);
            }
        }
        assert(0 <= i + 1 < rooms.len() && rooms[i + 1].id == id && forall|j: int|
            0 <= j < i + 1 ==> rooms[j].id != id);
    }
}

/// After noting `text` in the room `id`, that room holds what it held before
/// (nothing for a new room) followed by `text`.
pub proof fn lemma_noted_reads_back(rooms: Seq<RoomView>, id: Seq<char>, text: Seq<char>)
    ensures
        has_room(noted(rooms, id, text), id),
        noted(rooms, id, text)[room_index(noted(rooms, id, text), id)].messages == (if has_room(
            rooms,
            id,
        ) {
            rooms[room_index(rooms, id)].messages
        } else {
            Seq::empty()
        }).push(text),
{
    let n = noted(rooms, id, text);
    if has_room(rooms, id) {
        lemma_first_room(rooms, id);
        let i = room_index(rooms, id);
        assert(n[i].id == id);
        assert(has_room(n, id));
        lemma_first_room(n, id);
        let j = room_index(n, id);
        if j < i {
            assert(n[j] == rooms[j]);
        }
        if j > i {
            assert(n[i].id == id);
        }
    } else {
        let i = rooms.len() as int;
        assert(n[i].id == id);
        assert(has_room(n, id));
        lemma_first_room(n, id);
        let j = room_index(n, id);
        if j < i {
            assert(n[j] == rooms[j]);
        }
        assert(seq![text] =~= Seq::<Seq<char>>::empty().push(text));
    }
}

impl State {
    /// Each room identifier occurs at most once.
    #[verifier::type_invariant]
    spec fn well_formed(self) -> bool {
        distinct_rooms(self@)
    }

    /// No rooms yet.
    pub fn new() -> (s: State)
        ensures
            s@ == Seq::<RoomView>::empty(),
    {
        let s = State { rooms: Vec::new() };
        assert(s@ =~= Seq::<RoomView>::empty());
        s
    }

    /// The rooms, in the order in which they were first noted.
    pub fn rooms(&self) -> (r: &Vec<(String, Room)>)
        ensures
            r@.map_values(|r: (String, Room)| room_view(r)) == self@,
            distinct_rooms(self@),
    {
        proof {
            use_type_invariant(self);
        }
        &self.rooms
    }

    fn find(&self, id: &String) -> (r: Option<usize>)
        ensures
            r is None <==> !has_room(self@, id@),
            r matches Some(i) ==> i == room_index(self@, id@) && i < self@.len() && self@[i as int].id
                == id@,
    {
        let ghost v = self@;
        let mut i: usize = 0;
        while i < self.rooms.len()
            invariant
                i <= self.rooms@.len(),
                v == self@,
                forall|j: int| 0 <= j < i ==> v[j].id != id@,
            decreases self.rooms@.len() - i,
        {
            if self.rooms[i].0 == *id {
                assert(v[i as int].id == id@);
                assert(has_room(v, id@));
                let ghost k = room_index(v, id@);
                assert(k == i) by {
                    if k < i {
                        assert(v[k].id != id@);
                    } else if k > i {
                        assert(v[i as int].id != id@);
                    }
                }
                return Some(i);
            }
            i = i + 1;
        }
        None
    }

    /// Appends `text` to the room at position `i`.
    fn note_at(&mut self, i: usize, text: String)
        requires
            i < old(self)@.len(),
        ensures
            final(self)@ == old(self)@.update(
                i as int,
                RoomView { id: old(self)@[i as int].id, messages: old(self)@[i as int].messages.push(text@) },
            ),
    {
        proof {
            use_type_invariant(&*self);
        }
        let ghost r0 = self.rooms@;
        let ghost v0 = self@;
        let ghost t = text@;
        let mut rooms: Vec<(String, Room)> = Vec::new();
        std::mem::swap(&mut rooms, &mut self.rooms);
        let (key, mut room) = rooms.remove(i);
        let ghost before = room.messages@.map_values(|s: String| s@);
        room.messages.push(text);
        assert(room.messages@.map_values(|s: String| s@) =~= before.push(t));
        let pair = (key, room);
        rooms.insert(i, pair);
        assert(rooms@ =~= r0.update(i as int, pair));
        let ghost v1 = rooms@.map_values(|r: (String, Room)| room_view(r));
        assert(v1 =~= v0.update(
            i as int,
            RoomView { id: v0[i as int].id, messages: v0[i as int].messages.push(t) },
        ));
        assert(distinct_rooms(v1)) by {
            assert forall|a: int, b: int|
                0 <= a < v1.len() && 0 <= b < v1.len() && a != b implies v1[a].id != v1[b].id by {
                assert(v1[a].id == v0[a].id);
                assert(v1[b].id == v0[b].id);
            }
        }
        self.rooms = rooms;
    }

    /// Adds a room `id` holding the single text `text`; no room has that
    /// identifier yet.
    fn add_room(&mut self, id: String, text: String)
        requires
            !has_room(old(self)@, id@),
        ensures
            final(self)@ == old(self)@.push(RoomView { id: id@, messages: seq![text@] }),
    {
        proof {
            use_type_invariant(&*self);
        }
        let ghost r0 = self.rooms@;
        let ghost v0 = self@;
        let ghost t = text@;
        let mut messages: Vec<String> = Vec::new();
        messages.push(text);
        assert(messages@.map_values(|s: String| s@) =~= seq![t]);
        let pair = (id, Room { messages });
        let mut rooms: Vec<(String, Room)> = Vec::new();
        std::mem::swap(&mut rooms, &mut self.rooms);
        rooms.push(pair);
        assert(rooms@ =~= r0.push(pair));
        let ghost v1 = rooms@.map_values(|r: (String, Room)| room_view(r));
        assert(v1 =~= v0.push(room_view(pair)));
        assert(distinct_rooms(v1)) by {
            assert forall|a: int, b: int|
                0 <= a < v1.len() && 0 <= b < v1.len() && a != b implies v1[a].id != v1[b].id by {
                if a == v0.len() {
                    assert(v0[b].id == v1[b].id);
                } else if b == v0.len() {
                    assert(v0[a].id == v1[a].id);
                }
            }
        }
        self.rooms = rooms;
    }

    /// Notes `text` in the room `id`, creating the room if it is missing.
    pub fn note(&mut self, id: String, text: String)
        ensures
            final(self)@ == noted(old(self)@, id@, text@),
    {
        match self.find(&id) {
            Some(i) => self.note_at(i, text),
            None => self.add_room(id, text),
        }
    }

    /// Processes `msg`; returns whether the rooms changed.
    pub fn update(&mut self, msg: Msg) -> (changed: bool)
        ensures
            match msg {
                Msg::Response(Response::Group(g)) => {
                    &&& changed
                    &&& final(self)@ == noted(old(self)@, g.id@, answer(g.msg))
                },
                Msg::InitListener => !changed && final(self)@ == old(self)@,
            },
    {
        match msg {
            Msg::Response(Response::Group(Group { id, msg })) => {
                let text = match msg {
                    GroupMsg::Ping => {
                        let s = String::from_str("pong");
                        proof {
                            reveal_strlit("pong");
                        }
                        assert(s@ =~= answer(GroupMsg::Ping));
                        s
                    },
                    GroupMsg::Pong => {
                        let s = String::from_str("ping");
                        proof {
                            reveal_strlit("ping");
                        }
                        assert(s@ =~= answer(GroupMsg::Pong));
                        s
                    },
                };
                self.note(id, text);
                true
            },
            Msg::InitListener => false,
        }
    }
}

} // verus!
