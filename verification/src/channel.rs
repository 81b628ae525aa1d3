//! Messages of a channel protocol: an action applied to the block with the
//! given hash.

use vstd::prelude::*;

verus! {

/// An action addressed to a channel.
#[derive(Debug)]
pub struct ChannelMsg {
    /// Unique identifier of this channel.
    pub id: String,
    /// Action to apply.
    pub action: Action,
    /// Hash of the block the message should be applied to.
    pub hash: Vec<u8>,
}

/// What a channel message asks for.
#[derive(Clone, Copy, Debug, PartialEq, Eq, Structural)]
pub enum Action {
    /// Number of participants in this channel.
    Participants(usize),
    Ping,
    Pong,
}

} // verus!
