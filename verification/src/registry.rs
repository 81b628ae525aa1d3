//! A registry of spaces kept by address, each with its participants and
//! messages.

use std::collections::HashMap;

use vstd::prelude::*;

use crate::address::{is_random_uuid, Address};

verus! {

broadcast use vstd::std_specs::hash::group_hash_axioms;

/// A message of a registered space (it carries no content yet).
#[derive(Clone, Copy, Debug, PartialEq, Eq, Structural)]
pub struct Message;

/// A registered space.
#[derive(Debug)]
pub struct Space {
    address: Address,
    participants: Vec<Address>,
    messages: Vec<Message>,
}

/// The mathematical value of a registered [`Space`].
pub struct SpaceRecord {
    pub address: u128,
    pub participants: Seq<u128>,
    pub messages: nat,
}

impl View for Space {
    type V = SpaceRecord;

    closed spec fn view(&self) -> SpaceRecord {
        SpaceRecord {
            address: self.address@,
            participants: self.participants@.map_values(|a: Address| a@),
            messages: self.messages@.len(),
        }
    }
}

impl Space {
    /// A space at a fresh random address, without participants or messages.
    pub fn new() -> (s: Space)
        ensures
            is_random_uuid(s@.address),
            s@.participants == Seq::<u128>::empty(),
            s@.messages == 0,
    {
        let s = Space { address: Address::new(), participants: Vec::new(), messages: Vec::new() };
        assert(s@.participants =~= Seq::<u128>::empty());
        s
    }
}

/// All registered spaces, by address.
pub struct Spaces {
    spaces: HashMap<u128, Space>,
}

impl View for Spaces {
    type V = Map<u128, SpaceRecord>;

    closed spec fn view(&self) -> Map<u128, SpaceRecord> {
        Map::new(|a: u128| self.spaces@.contains_key(a), |a: u128| self.spaces@[a]@)
    }
}

impl Spaces {
    /// No spaces yet.
    pub fn new() -> (s: Spaces)
        ensures
            s@ == Map::<u128, SpaceRecord>::empty(),
    {
        let s = Spaces { spaces: HashMap::new() };
        assert(s@ =~= Map::<u128, SpaceRecord>::empty());
        s
    }

    /// Registers a new empty space and returns its address.
    pub fn new_space(&mut self) -> (a: Address)
        ensures
            is_random_uuid(a@),
            final(self)@.contains_key(a@),
            final(self)@[a@].address == a@,
            final(self)@[a@].participants == Seq::<u128>::empty(),
            final(self)@[a@].messages == 0,
            final(self)@ == old(self)@.insert(a@, final(self)@[a@]),
    {
        let space = Space::new();
        self.add_space(space)
    }

    /// Registers `space` under its own address, in place of what was there,
    /// and returns the address.
    pub fn add_space(&mut self, space: Space) -> (a: Address)
        ensures
            a@ == space@.address,
            final(self)@ == old(self)@.insert(a@, space@),
    {
        let address = space.address;
        let ghost v = space@;
        self.spaces.insert(address.id, space);
        assert(self@ =~= old(self)@.insert(address@, v));
        address
    }
}

} // verus!
