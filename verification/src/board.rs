//! A plain message board of spaces: each space keeps the texts posted to it.

use std::collections::HashMap;

use vstd::prelude::*;

use crate::address::{is_random_uuid, Address};
use crate::space::SpaceAddress;

verus! {

broadcast use vstd::std_specs::hash::group_hash_axioms;

/// A posted text.
#[derive(Debug)]
pub struct Message {
    pub text: String,
}

/// A space: the texts posted to it, oldest first.
#[derive(Debug)]
pub struct Space {
    messages: Vec<Message>,
}

impl View for Space {
    type V = Seq<Seq<char>>;

    closed spec fn view(&self) -> Seq<Seq<char>> {
        self.messages@.map_values(|m: Message| m.text@)
    }
}

impl Space {
    /// A space without messages.
    pub fn new() -> (s: Space)
        ensures
            s@ == Seq::<Seq<char>>::empty(),
    {
        let s = Space { messages: Vec::new() };
        assert(s@ =~= Seq::<Seq<char>>::empty());
        s
    }

    fn send_message(&mut self, message: Message)
        ensures
            final(self)@ == old(self)@.push(message.text@),
    {
        let ghost t = message.text@;
        self.messages.push(message);
        assert(self@ =~= old(self)@.push(t));
    }

    /// The messages, oldest first.
    pub fn messages(&self) -> (m: &Vec<Message>)
        ensures
            m@.map_values(|x: Message| x.text@) == self@,
    {
        &self.messages
    }
}

/// Something done in a space.
#[derive(Debug)]
pub enum Action {
    /// Post a message to a space.
    Send(SpaceAddress, Message),
}

/// All spaces of the board, by address.
pub struct Spaces {
    spaces: HashMap<u128, Space>,
}

impl View for Spaces {
    type V = Map<u128, Seq<Seq<char>>>;

    closed spec fn view(&self) -> Map<u128, Seq<Seq<char>>> {
        Map::new(|a: u128| self.spaces@.contains_key(a), |a: u128| self.spaces@[a]@)
    }
}

/// The texts of the space at `a`, or none for a space not on the board.
pub open spec fn texts_at(spaces: Map<u128, Seq<Seq<char>>>, a: u128) -> Seq<Seq<char>> {
    if spaces.contains_key(a) {
        spaces[a]
    } else {
        Seq::empty()
    }
}

/// The texts of a space on the board are exactly the ones stored for it, all
/// of them; a space not on the board has none.
pub proof fn lemma_texts_at(spaces: Map<u128, Seq<Seq<char>>>, a: u128)
    ensures
        spaces.contains_key(a) ==> texts_at(spaces, a) == spaces[a],
        !spaces.contains_key(a) ==> texts_at(spaces, a).len() == 0,
{
}

impl Spaces {
    /// A board without spaces.
    pub fn new() -> (s: Spaces)
        ensures
            s@ == Map::<u128, Seq<Seq<char>>>::empty(),
    {
        let s = Spaces { spaces: HashMap::new() };
        assert(s@ =~= Map::<u128, Seq<Seq<char>>>::empty());
        s
    }

    /// Posts the message to its space, creating the space where there is none.
    pub fn handle_action(&mut self, action: Action)
        ensures
            match action {
                Action::Send(a, m) => {
                    &&& final(self)@ == old(self)@.insert(a@, texts_at(old(self)@, a@).push(m.text@))
                    &&& final(self)@.contains_key(a@)
                    &&& final(self)@[a@].len() == texts_at(old(self)@, a@).len() + 1
                    &&& final(self)@[a@].last() == m.text@
                    &&& old(self)@.contains_key(a@) ==> final(self)@[a@] == old(self)@[a@].push(
                        m.text@,
                    )
                    &&& !old(self)@.contains_key(a@) ==> final(self)@[a@] == seq![m.text@]
                },
            },
    {
        match action {
            Action::Send(address, message) => {
                let mut space = self.take(&address);
                space.send_message(message);
                self.put(&address, space);
            },
        }
    }

    /// The space at `address`, if the board has it.
    pub fn get(&self, address: &SpaceAddress) -> (r: Option<&Space>)
        ensures
            self@.contains_key(address@) ==> (r matches Some(s) && s@ == self@[address@]),
            !self@.contains_key(address@) ==> r is None,
    {
        self.spaces.get(&address.0.id)
    }

    /// The addresses of all spaces, each once.
    pub fn iter(&self) -> (r: Vec<SpaceAddress>)
        ensures
            r@.map_values(|a: SpaceAddress| a@).no_duplicates(),
            r@.map_values(|a: SpaceAddress| a@).to_set() == self@.dom(),
    {
        let mut r: Vec<SpaceAddress> = Vec::new();
        for k in it: self.spaces.keys()
            invariant
                r@.len() == it.index(),
                forall|j: int| 0 <= j < it.index() ==> #[trigger] r@[j]@ == *it.seq()[j],
                it.seq().unref().no_duplicates(),
                it.seq().unref().to_set() == self.spaces@.dom(),
                it.seq().len() == self.spaces@.dom().len(),
            ensures
                r@.map_values(|a: SpaceAddress| a@) == it.seq().unref(),
                it.seq().unref().no_duplicates(),
                it.seq().unref().to_set() == self.spaces@.dom(),
        {
            r.push(SpaceAddress(Address { id: *k }));
        }
        assert(self@.dom() =~= self.spaces@.dom());
        r
    }

    /// Adds an empty space at a fresh random address and returns the address.
    pub fn create_new_space(&mut self) -> (a: SpaceAddress)
        ensures
            is_random_uuid(a@),
            final(self)@ == old(self)@.insert(a@, texts_at(old(self)@, a@)),
            old(self)@.contains_key(a@) ==> final(self)@ == old(self)@,
            !old(self)@.contains_key(a@) ==> final(self)@ == old(self)@.insert(
                a@,
                Seq::<Seq<char>>::empty(),
            ),
    {
        let address = SpaceAddress(Address::new());
        self.space_mut(&address);
        address
    }

    /// Puts `space` at `address`, in place of what was there.
    pub fn load_space(&mut self, address: &SpaceAddress, space: Space)
        ensures
            final(self)@ == old(self)@.insert(address@, space@),
    {
        self.put(address, space);
    }

    /// Makes sure that a space exists at `address`.
    fn space_mut(&mut self, address: &SpaceAddress)
        ensures
            final(self)@ == old(self)@.insert(address@, texts_at(old(self)@, address@)),
    {
        let space = self.take(address);
        self.put(address, space);
    }

    fn take(&mut self, address: &SpaceAddress) -> (s: Space)
        ensures
            s@ == texts_at(old(self)@, address@),
            final(self)@ == old(self)@.remove(address@),
    {
        let s = match self.spaces.remove(&address.0.id) {
            Some(s) => s,
            None => Space::new(),
        };
        assert(self@ =~= old(self)@.remove(address@));
        s
    }

    fn put(&mut self, address: &SpaceAddress, space: Space)
        ensures
            final(self)@ == old(self)@.insert(address@, space@),
    {
        let ghost v = space@;
        self.spaces.insert(address.0.id, space);
        assert(self@ =~= old(self)@.insert(address@, v));
    }
}

} // verus!
