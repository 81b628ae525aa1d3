//! Hash-chained blocks: each block commits, by a SHA3-256 digest, to its
//! message, the state it applies to and the block before it.

use sha3::Digest;
use vstd::prelude::*;

verus! {

/// The SHA3-256 digest of `data`.
pub uninterp spec fn sha3_256(data: Seq<u8>) -> Seq<u8>;

/// Calls `sha3::Sha3_256::digest` (the `Digest` trait of the `digest` crate).
/// Claims that the result is the one named by `sha3_256` and has the 32 bytes
/// of a SHA3-256 output.
#[verifier::external_body]
fn sha3_digest(data: &[u8]) -> (h: Vec<u8>)
    ensures
        h@ == sha3_256(data@),
        h@.len() == 32,
{
    sha3::Sha3_256::digest(data).to_vec()
}

/// A block: a message and the digest that commits to it.
pub struct Block<M> {
    pub msg: M,
    pub hash: Vec<u8>,
    pub previous_hash: Option<Vec<u8>>,
}

/// The digest of a block: of the serialised message, then the serialised
/// state, then the digest of the previous block if there is one.
pub open spec fn block_hash(msg: Seq<u8>, state: Seq<u8>, previous: Option<Seq<u8>>) -> Seq<u8> {
    match previous {
        Some(p) => sha3_256(msg + state + p),
        None => sha3_256(msg + state),
    }
}

impl<M> Block<M> {
    /// The first block of a chain. `packed_msg` and `packed_state` are the
    /// serialised message and state.
    pub fn new(msg: M, packed_msg: &[u8], packed_state: &[u8]) -> (b: Block<M>)
        ensures
            b.msg == msg,
            b.hash@ == block_hash(packed_msg@, packed_state@, None),
            b.hash@.len() == 32,
            b.previous_hash is None,
    {
        let mut data: Vec<u8> = Vec::new();
        crate::codec::push_bytes(&mut data, packed_msg);
        crate::codec::push_bytes(&mut data, packed_state);
        let hash = sha3_digest(data.as_slice());
        Block { msg, hash, previous_hash: None }
    }

    /// The block that follows `self`, for the next message and state.
    pub fn update(&self, msg: M, packed_msg: &[u8], packed_state: &[u8]) -> (b: Block<M>)
        ensures
            b.msg == msg,
            b.hash@ == block_hash(packed_msg@, packed_state@, Some(self.hash@)),
            b.hash@.len() == 32,
            b.previous_hash matches Some(p) && p@ == self.hash@,
    {
        let mut data: Vec<u8> = Vec::new();
        crate::codec::push_bytes(&mut data, packed_msg);
        crate::codec::push_bytes(&mut data, packed_state);
        crate::codec::push_bytes(&mut data, self.hash.as_slice());
        let hash = sha3_digest(data.as_slice());
        Block {
            msg,
            hash,
            previous_hash: Some(vstd::slice::slice_to_vec(self.hash.as_slice())),
        }
    }
}

} // verus!
