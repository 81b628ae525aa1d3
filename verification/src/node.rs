//! The routing node's decisions. Connections join spaces; whatever a
//! connection sends to a space is handed to every connection that joined it,
//! in the order in which they joined.

use std::collections::HashMap;

use vstd::prelude::*;

use crate::address::Address;
use crate::transport::{Input, InputView, Output, OutputView};

verus! {

broadcast use vstd::std_specs::hash::group_hash_axioms;

/// A request that reached the node: from which connection, and what it asks.
pub enum Msg {
    Request(u64, Input),
}

/// Output for one connection.
pub struct Delivery {
    pub to: u64,
    pub output: Output,
}

/// The node's state: for each space, the connections that joined it.
pub struct Router {
    channels: HashMap<u128, Vec<u64>>,
}

/// The connections in `channels` that joined `a`, oldest first.
pub open spec fn channel(channels: Map<u128, Seq<u64>>, a: u128) -> Seq<u64> {
    if channels.contains_key(a) {
        channels[a]
    } else {
        Seq::empty()
    }
}

/// The state after connection `from` joins `a`.
pub open spec fn joined(channels: Map<u128, Seq<u64>>, a: u128, from: u64) -> Map<u128, Seq<u64>> {
    channels.insert(a, channel(channels, a).push(from))
}

/// Joining a space adds the connection as its newest member and leaves every
/// other space as it was.
pub proof fn lemma_join_adds_member(channels: Map<u128, Seq<u64>>, a: u128, from: u64, b: u128)
    ensures
        channel(joined(channels, a, from), a) == channel(channels, a).push(from),
        channel(joined(channels, a, from), a).contains(from),
        b != a ==> channel(joined(channels, a, from), b) == channel(channels, b),
{
    let c = channel(joined(channels, a, from), a);
    assert(c[c.len() - 1] == from);
}

/// Once a connection has joined a space, it stays a member whoever else joins
/// anywhere, so everything later sent to the space reaches it.
pub proof fn lemma_membership_persists(
    channels: Map<u128, Seq<u64>>,
    a: u128,
    member: u64,
    b: u128,
    from: u64,
)
    requires
        channel(channels, a).contains(member),
    ensures
        channel(joined(channels, b, from), a).contains(member),
{
    let c = channel(channels, a);
    let i = choose|i: int| 0 <= i < c.len() && c[i] == member;
    if a == b {
        assert(channel(joined(channels, b, from), a)[i] == member);
    }
}

/// The state after a join or a send by `from`.
pub open spec fn step(channels: Map<u128, Seq<u64>>, from: u64, input: InputView) -> Map<u128, Seq<u64>> {
    match input {
        InputView::Join(a) => joined(channels, a, from),
        InputView::Send(_, _) => channels,
    }
}

/// The state after the requests `reqs`, oldest first, starting from no members.
pub open spec fn replay(reqs: Seq<(u64, InputView)>) -> Map<u128, Seq<u64>>
    decreases reqs.len(),
{
    if reqs.len() == 0 {
        Map::empty()
    } else {
        step(replay(reqs.drop_last()), reqs.last().0, reqs.last().1)
    }
}

/// The connections that asked to join `a` in `reqs`, in the order they asked.
pub open spec fn joiners(reqs: Seq<(u64, InputView)>, a: u128) -> Seq<u64>
    decreases reqs.len(),
{
    if reqs.len() == 0 {
        Seq::empty()
    } else {
        let rest = joiners(reqs.drop_last(), a);
        match reqs.last().1 {
            InputView::Join(b) => if b == a {
                rest.push(reqs.last().0)
            } else {
                rest
            },
            InputView::Send(_, _) => rest,
        }
    }
}

/// Whatever was sent in between, the members of a space are exactly the
/// connections that joined it, in the order in which they joined.
pub proof fn lemma_members_are_joiners(reqs: Seq<(u64, InputView)>, a: u128)
    ensures
        channel(replay(reqs), a) == joiners(reqs, a),
    decreases reqs.len(),
{
    if reqs.len() > 0 {
        lemma_members_are_joiners(reqs.drop_last(), a);
        let m = replay(reqs.drop_last());
        match reqs.last().1 {
            InputView::Join(b) => {
                lemma_join_adds_member(m, b, reqs.last().0, a);
            },
            InputView::Send(_, _) => {},
        }
    }
}

impl View for Router {
    type V = Map<u128, Seq<u64>>;

    closed spec fn view(&self) -> Map<u128, Seq<u64>> {
        Map::new(|a: u128| self.channels@.contains_key(a), |a: u128| self.channels@[a]@)
    }
}

impl Router {
    /// A node that no connection has joined yet.
    pub fn new() -> (r: Router)
        ensures
            r@ == Map::<u128, Seq<u64>>::empty(),
    {
        let r = Router { channels: HashMap::new() };
        assert(r@ =~= Map::<u128, Seq<u64>>::empty());
        r
    }

    /// The connections that joined `address`, oldest first.
    pub fn members(&self, address: &Address) -> (m: Vec<u64>)
        ensures
            m@ == channel(self@, address@),
    {
        match self.channels.get(&address.id) {
            Some(v) => vstd::slice::slice_to_vec(v.as_slice()),
            None => Vec::new(),
        }
    }

    /// Applies one request: a join records the connection for the space; a send
    /// leaves the state as it is and produces one output per member of the
    /// space, in the order in which they joined.
    pub fn handle(&mut self, msg: Msg) -> (d: Vec<Delivery>)
        ensures
            match msg {
                Msg::Request(from, input) => final(self)@ == step(old(self)@, from, input@) && match input@ {
                    InputView::Join(a) => {
                        &&& final(self)@ == joined(old(self)@, a, from)
                        &&& d@.len() == 0
                    },
                    InputView::Send(a, p) => {
                        &&& final(self)@ == old(self)@
                        &&& d@.len() == channel(old(self)@, a).len()
                        &&& forall|i: int|
                            0 <= i < d@.len() ==> #[trigger] d@[i].to == channel(old(self)@, a)[i]
                                && d@[i].output@ == (OutputView { address: a, payload: p })
                    },
                },
            },
    {
        let Msg::Request(from, input) = msg;
        match input {
            Input::Send(to, payload) => {
                let members = self.members(&to);
                let mut out: Vec<Delivery> = Vec::new();
                let mut i: usize = 0;
                while i < members.len()
                    invariant
                        i <= members@.len(),
                        members@ == channel(self@, to@),
                        out@.len() == i,
                        forall|j: int|
                            0 <= j < i ==> #[trigger] out@[j].to == members@[j]
                                && out@[j].output@ == (OutputView { address: to@, payload: payload@ }),
                    decreases members@.len() - i,
                {
                    let copy = vstd::slice::slice_to_vec(payload.as_slice());
                    out.push(Delivery { to: members[i], output: Output { address: to, payload: copy } });
                    i = i + 1;
                }
                out
            },
            Input::Join(address) => {
                let mut members = match self.channels.remove(&address.id) {
                    Some(v) => v,
                    None => Vec::new(),
                };
                members.push(from);
                self.channels.insert(address.id, members);
                assert(self@ =~= joined(old(self)@, address@, from));
                Vec::new()
            },
        }
    }
}

} // verus!
