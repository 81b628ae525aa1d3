//! The protocol between peers: what a client hands the node to reach a space,
//! and how a received delivery is turned back into a payload and its sender.

use vstd::prelude::*;

use crate::address::Address;
use crate::codec::{framed, le_u32, parse_framed, parse_u32};
use crate::identity::{
    self, ed25519_public_key, encode_message, peer_id_of, signed, Identity, PeerId,
};
use crate::transport::{
    decode_input, decode_output, encode_input, encode_output, InputView, OutputView, Wire,
};

verus! {

/// Why a protocol message could not be written or read.
#[derive(Clone, Copy, Debug, PartialEq, Eq, Structural)]
pub enum Error {
    /// The bytes do not have the protocol's layout.
    Serde,
    /// The signed payload inside was refused.
    Identity(identity::Error),
}

/// A payload and whether it is meant for everyone in a space.
#[derive(Debug)]
pub enum Payload<T> {
    Public(T),
    Private(T),
}

impl<T: View> View for Payload<T> {
    type V = Payload<T::V>;

    open spec fn view(&self) -> Payload<T::V> {
        match self {
            Payload::Public(t) => Payload::Public(t@),
            Payload::Private(t) => Payload::Private(t@),
        }
    }
}

pub open spec fn encode_payload(v: Payload<Seq<u8>>) -> Seq<u8> {
    match v {
        Payload::Public(b) => le_u32(0) + framed(b),
        Payload::Private(b) => le_u32(1) + framed(b),
    }
}

pub open spec fn decode_payload(s: Seq<u8>) -> Option<Payload<Seq<u8>>> {
    match parse_u32(s) {
        Some((tag, r)) => if tag == 0 || tag == 1 {
            match parse_framed(r) {
                Some((b, _)) => if tag == 0 {
                    Some(Payload::Public(b))
                } else {
                    Some(Payload::Private(b))
                },
                None => None,
            }
        } else {
            None
        },
        None => None,
    }
}

impl Wire for Payload<Vec<u8>> {
    open spec fn encode(v: Payload<Seq<u8>>) -> Seq<u8> {
        encode_payload(v)
    }

    open spec fn decode(s: Seq<u8>) -> Option<Payload<Seq<u8>>> {
        decode_payload(s)
    }

    open spec fn fits(v: Payload<Seq<u8>>) -> bool {
        match v {
            Payload::Public(b) => b.len() <= u64::MAX,
            Payload::Private(b) => b.len() <= u64::MAX,
        }
    }

    fn pack_into(&self, out: &mut Vec<u8>) {
        match self {
            Payload::Public(b) => {
                crate::codec::push_u32(out, 0);
                crate::codec::push_framed(out, b.as_slice());
            },
            Payload::Private(b) => {
                crate::codec::push_u32(out, 1);
                crate::codec::push_framed(out, b.as_slice());
            },
        }
        assert(out@ =~= old(out)@ + encode_payload(self@));
    }

    fn unpack_from(data: &[u8]) -> (r: Option<Payload<Vec<u8>>>) {
        assert(data@.skip(0) =~= data@);
        match crate::codec::read_u32(data, 0) {
            None => None,
            Some((tag, p)) => {
                if tag != 0 && tag != 1 {
                    return None;
                }
                match crate::codec::read_framed(data, p) {
                    None => None,
                    Some((b, _)) => if tag == 0 {
                        Some(Payload::Public(b))
                    } else {
                        Some(Payload::Private(b))
                    },
                }
            },
        }
    }

    proof fn lemma_roundtrip(v: Payload<Seq<u8>>, rest: Seq<u8>) {
        match v {
            Payload::Public(b) => {
                assert(encode_payload(v) + rest =~= le_u32(0) + (framed(b) + rest));
                crate::codec::lemma_parse_u32(0, framed(b) + rest);
                crate::codec::lemma_parse_framed(b, rest);
            },
            Payload::Private(b) => {
                assert(encode_payload(v) + rest =~= le_u32(1) + (framed(b) + rest));
                crate::codec::lemma_parse_u32(1, framed(b) + rest);
                crate::codec::lemma_parse_framed(b, rest);
            },
        }
    }

    proof fn lemma_canonical(s: Seq<u8>) {
        crate::codec::lemma_parse_u32_canonical(s);
        let (tag, r) = parse_u32(s).unwrap();
        crate::codec::lemma_parse_framed_canonical(r);
        let (b, r2) = parse_framed(r).unwrap();
        let v = decode_payload(s).unwrap();
        assert(s =~= encode_payload(v) + r2);
        assert(s.subrange(0, encode_payload(v).len() as int) =~= encode_payload(v));
    }
}

/// What a client asks the node to do.
pub enum Message<T> {
    /// Send a payload, signed by the identity, to everyone in the space.
    Peer(Payload<T>, Identity, Address),
    /// Join the space, so as to receive what is sent to it.
    JoinRoom(Address),
}

/// The data that the node forwards when `secret` sends the public payload `p`.
pub open spec fn public_delivery(p: Seq<u8>, secret: Seq<u8>) -> Seq<u8> {
    encode_payload(Payload::Public(encode_message(signed(secret, p))))
}

/// A public payload travels as a public one. The data that the node forwards
/// starts with the variant tag 0 (four zero bytes) and reads back as
/// `Payload::Public` of the signed message, so no delivery of it counts as
/// private. In the request to the node, which starts with the tag of `Send`
/// (four zero bytes), that variant tag sits at bytes 36..40: after the request's
/// tag, the length-prefixed address and the data's length.
pub proof fn lemma_public_delivery(p: Seq<u8>, secret: Seq<u8>, a: u128)
    requires
        public_delivery(p, secret).len() <= u64::MAX,
    ensures
        public_delivery(p, secret).take(4) == seq![0u8, 0u8, 0u8, 0u8],
        decode_payload(public_delivery(p, secret)) == Some(
            Payload::Public(encode_message(signed(secret, p))),
        ),
        !carries_private(encode_output(OutputView { address: a, payload: public_delivery(p, secret) })),
        encode_input(InputView::Send(a, public_delivery(p, secret))).take(4) == seq![0u8, 0u8, 0u8, 0u8],
        encode_input(InputView::Send(a, public_delivery(p, secret))).subrange(36, 40) == seq![
            0u8,
            0u8,
            0u8,
            0u8,
        ],
{
    let m = encode_message(signed(secret, p));
    let d = public_delivery(p, secret);
    crate::codec::lemma_le_u32_digits(0);
    let zero = seq![0u8, 0u8, 0u8, 0u8];
    assert(le_u32(0) =~= zero);
    assert(d =~= le_u32(0) + framed(m));
    assert(d.take(4) =~= zero);
    crate::transport::lemma_unpack_pack::<Payload<Vec<u8>>>(Payload::Public(m));
    let o = OutputView { address: a, payload: d };
    crate::transport::lemma_unpack_pack::<crate::transport::Output>(o);
    let e = encode_input(InputView::Send(a, d));
    crate::codec::lemma_u64_le_roundtrip(16);
    crate::codec::lemma_u64_le_roundtrip(d.len() as u64);
    crate::codec::lemma_u128_be_roundtrip(a);
    let pre = le_u32(0) + crate::address::encode_address(a) + crate::codec::le_u64(d.len() as u64);
    assert(pre.len() == 36);
    assert(e =~= pre + d);
    assert(e.take(4) =~= zero);
    assert(e.subrange(36, 40) =~= d.take(4));
}

/// A request to join a space starts with the tag of `Join`: 1, as four
/// little-endian bytes.
pub proof fn lemma_join_request(a: u128)
    ensures
        encode_input(InputView::Join(a)).take(4) == seq![1u8, 0u8, 0u8, 0u8],
{
    crate::codec::lemma_le_u32_digits(1);
    assert(encode_input(InputView::Join(a)).take(4) =~= seq![1u8, 0u8, 0u8, 0u8]);
}

/// What reading a delivery `s` gives: the payload, the sender's peer id and the
/// space it was sent to, or why it is refused.
pub open spec fn unpack_outcome(s: Seq<u8>) -> Result<(Seq<u8>, Seq<u8>, u128), Error> {
    match decode_output(s) {
        None => Err(Error::Serde),
        Some(o) => match decode_payload(o.payload) {
            None => Err(Error::Serde),
            Some(Payload::Public(signed_bytes)) => match identity::unpack_outcome(signed_bytes) {
                Ok((p, peer)) => Ok((p, peer, o.address)),
                Err(e) => Err(Error::Identity(e)),
            },
            Some(Payload::Private(_)) => Err(Error::Serde),
        },
    }
}

/// Whether the delivery `s` carries a private payload, which this protocol
/// cannot read yet.
pub open spec fn carries_private(s: Seq<u8>) -> bool {
    match decode_output(s) {
        Some(o) => decode_payload(o.payload) matches Some(Payload::Private(_)),
        None => false,
    }
}

/// Whether `msg` asks to send a private payload, which this protocol cannot
/// write yet.
pub open spec fn is_private<T>(msg: Message<T>) -> bool {
    msg matches Message::Peer(Payload::Private(_), _, _)
}

/// The request that the client sends to the node for `msg`.
///
/// A public payload is signed and addressed to the space; when the node passes
/// it on, [`unpack`] of the delivery gives back the payload, the sender's peer
/// id and the space.
pub fn pack(msg: Message<Vec<u8>>) -> (r: Result<Vec<u8>, Error>)
    requires
        !is_private(msg),
    ensures
        match msg {
            Message::Peer(Payload::Public(p), id, a) => {
                &&& r matches Ok(b) && b@ == encode_input(
                    InputView::Send(a@, public_delivery(p@, id@)),
                )
                &&& decode_input(encode_input(InputView::Send(a@, public_delivery(p@, id@))))
                    == Some(InputView::Send(a@, public_delivery(p@, id@)))
                &&& unpack_outcome(
                    encode_output(OutputView { address: a@, payload: public_delivery(p@, id@) }),
                ) == Ok::<(Seq<u8>, Seq<u8>, u128), Error>(
                    (p@, peer_id_of(ed25519_public_key(id@)), a@),
                )
                &&& decode_payload(public_delivery(p@, id@)) == Some(
                    Payload::Public(encode_message(signed(id@, p@))),
                )
                &&& !carries_private(
                    encode_output(OutputView { address: a@, payload: public_delivery(p@, id@) }),
                )
                &&& r matches Ok(b) && b@.take(4) == seq![0u8, 0u8, 0u8, 0u8]
                    && b@.subrange(36, 40) == seq![0u8, 0u8, 0u8, 0u8]
            },
            Message::JoinRoom(a) => r matches Ok(b) && b@ == encode_input(InputView::Join(a@))
                && b@.take(4) == seq![1u8, 0u8, 0u8, 0u8],
            _ => true,
        },
{
    match msg {
        Message::Peer(payload, ident, address) => match payload {
            Payload::Public(p) => {
                let signed_bytes = match identity::pack(p.as_slice(), &ident) {
                    Ok(b) => b,
                    Err(e) => return Err(Error::Identity(e)),
                };
                let wrapped = Payload::Public(signed_bytes);
                let data = crate::transport::pack(&wrapped);
                let input = crate::transport::Input::Send(address, data);
                let out = crate::transport::pack(&input);
                proof {
                    crate::transport::lemma_unpack_pack::<crate::transport::Output>(
                        OutputView { address: address@, payload: public_delivery(p@, ident@) },
                    );
                    lemma_public_delivery(p@, ident@, address@);
                }
                Ok(out)
            },
            Payload::Private(_) => {
                assert(false);
                Err(Error::Serde)
            },
        },
        Message::JoinRoom(address) => {
            let input = crate::transport::Input::Join(address);
            proof {
                lemma_join_request(address@);
            }
            Ok(crate::transport::pack(&input))
        },
    }
}

/// Whether the delivery `payload` carries a private payload, which [`unpack`]
/// does not accept.
pub fn is_private_delivery(payload: &[u8]) -> (r: bool)
    ensures
        r == carries_private(payload@),
{
    let output: crate::transport::Output = match crate::transport::unpack(payload) {
        Some(o) => o,
        None => return false,
    };
    let inner: Option<Payload<Vec<u8>>> = crate::transport::unpack(output.payload.as_slice());
    match inner {
        Some(Payload::Private(_)) => true,
        _ => false,
    }
}

/// Reads a delivery from the node: the payload, the peer id of its signer and
/// the space it was sent to.
pub fn unpack(payload: &[u8]) -> (r: Result<(Vec<u8>, PeerId, Address), Error>)
    requires
        !carries_private(payload@),
    ensures
        match unpack_outcome(payload@) {
            Ok((p, peer, a)) => r matches Ok((p2, peer2, a2)) && p2@ == p && peer2@ == peer
                && a2@ == a,
            Err(e) => r matches Err(e2) && e2 == e,
        },
{
    let output: crate::transport::Output = match crate::transport::unpack(payload) {
        Some(o) => o,
        None => return Err(Error::Serde),
    };
    let inner: Payload<Vec<u8>> = match crate::transport::unpack(output.payload.as_slice()) {
        Some(p) => p,
        None => return Err(Error::Serde),
    };
    match inner {
        Payload::Public(signed_bytes) => match identity::unpack(signed_bytes.as_slice()) {
            Ok((result, peer_id)) => Ok((result, peer_id, output.address)),
            Err(e) => Err(Error::Identity(e)),
        },
        Payload::Private(_) => {
            assert(false);
            Err(Error::Serde)
        },
    }
}

} // verus!
