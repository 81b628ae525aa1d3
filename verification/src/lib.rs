//! Verified core of a small peer-to-peer chat: wire framing, signed payloads,
//! the routing node's decisions and the client-side state of chat spaces.

pub mod address;
pub mod block;
pub mod board;
pub mod channel;
pub mod codec;
pub mod identity;
pub mod node;
pub mod presense;
pub mod space;
pub mod store;
pub mod protocol;
pub mod registry;
pub mod transport;
