//! Messages between a client and the routing node, and their wire form.
//!
//! A client sends an [`Input`]: join a space, or send bytes to everyone who
//! joined a space. The node hands each such recipient an [`Output`].

use vstd::prelude::*;

use crate::address::{encode_address, parse_address, Address};
use crate::codec::{framed, le_u32, parse_framed, parse_u32};

verus! {

/// A value with a wire form: `encode` says which bytes stand for a value,
/// `decode` what (if anything) a byte string stands for.
pub trait Wire: View + Sized {
    /// The bytes that stand for `v`.
    spec fn encode(v: Self::V) -> Seq<u8>;

    /// The value that the front of `s` stands for; bytes after it are ignored.
    spec fn decode(s: Seq<u8>) -> Option<Self::V>;

    /// `v` can be written: each byte string in it is shorter than 2^64.
    spec fn fits(v: Self::V) -> bool;

    /// Appends the wire form of `self`, which can always be written.
    fn pack_into(&self, out: &mut Vec<u8>)
        ensures
            final(out)@ == old(out)@ + Self::encode(self@),
            Self::fits(self@),
    ;

    /// Reads a value off the front of `data`.
    fn unpack_from(data: &[u8]) -> (r: Option<Self>)
        ensures
            r is None <==> Self::decode(data@) is None,
            r matches Some(v) ==> Self::decode(data@) == Some(v@),
    ;

    /// Every writable value reads back as itself, whatever follows it.
    proof fn lemma_roundtrip(v: Self::V, rest: Seq<u8>)
        requires
            Self::fits(v),
        ensures
            Self::decode(Self::encode(v) + rest) == Some(v),
    ;

    /// A value has one wire form only: what is read is the front of the input.
    proof fn lemma_canonical(s: Seq<u8>)
        requires
            Self::decode(s) is Some,
        ensures
            Self::fits(Self::decode(s).unwrap()),
            Self::encode(Self::decode(s).unwrap()).is_prefix_of(s),
    ;
}

/// The wire form of `data`; reading it back gives `data`.
pub fn pack<T: Wire>(data: &T) -> (r: Vec<u8>)
    ensures
        r@ == T::encode(data@),
        T::fits(data@),
        T::decode(r@) == Some(data@),
{
    let mut out: Vec<u8> = Vec::new();
    data.pack_into(&mut out);
    assert(out@ =~= T::encode(data@));
    proof {
        lemma_unpack_pack::<T>(data@);
    }
    out
}

/// The value whose wire form starts `data`, if any.
pub fn unpack<T: Wire>(data: &[u8]) -> (r: Option<T>)
    ensures
        r is None <==> T::decode(data@) is None,
        r matches Some(v) ==> T::decode(data@) == Some(v@),
{
    T::unpack_from(data)
}

/// Reading back what was written gives the value that was written.
pub proof fn lemma_unpack_pack<T: Wire>(v: T::V)
    requires
        T::fits(v),
    ensures
        T::decode(T::encode(v)) == Some(v),
{
    T::lemma_roundtrip(v, Seq::empty());
    assert(T::encode(v) + Seq::<u8>::empty() =~= T::encode(v));
}

/// Message sent to a node for routing.
#[derive(Debug)]
pub enum Input {
    /// Deliver the bytes to every connection that joined the address.
    Send(Address, Vec<u8>),
    /// Register the sending connection with the address.
    Join(Address),
}

/// The mathematical value of an [`Input`].
pub enum InputView {
    Send(u128, Seq<u8>),
    Join(u128),
}

impl View for Input {
    type V = InputView;

    open spec fn view(&self) -> InputView {
        match self {
            Input::Send(a, p) => InputView::Send(a@, p@),
            Input::Join(a) => InputView::Join(a@),
        }
    }
}

/// Message received from the node: bytes that were sent to a space.
#[derive(Debug)]
pub struct Output {
    pub address: Address,
    pub payload: Vec<u8>,
}

/// The mathematical value of an [`Output`].
pub struct OutputView {
    pub address: u128,
    pub payload: Seq<u8>,
}

impl View for Output {
    type V = OutputView;

    open spec fn view(&self) -> OutputView {
        OutputView { address: self.address@, payload: self.payload@ }
    }
}

pub open spec fn encode_input(v: InputView) -> Seq<u8> {
    match v {
        InputView::Send(a, p) => le_u32(0) + encode_address(a) + framed(p),
        InputView::Join(a) => le_u32(1) + encode_address(a),
    }
}

pub open spec fn decode_input(s: Seq<u8>) -> Option<InputView> {
    match parse_u32(s) {
        Some((tag, r)) => if tag == 0 {
            match parse_address(r) {
                Some((a, r2)) => match parse_framed(r2) {
                    Some((p, _)) => Some(InputView::Send(a, p)),
                    None => None,
                },
                None => None,
            }
        } else if tag == 1 {
            match parse_address(r) {
                Some((a, _)) => Some(InputView::Join(a)),
                None => None,
            }
        } else {
            None
        },
        None => None,
    }
}

pub open spec fn encode_output(v: OutputView) -> Seq<u8> {
    encode_address(v.address) + framed(v.payload)
}

pub open spec fn decode_output(s: Seq<u8>) -> Option<OutputView> {
    match parse_address(s) {
        Some((a, r)) => match parse_framed(r) {
            Some((p, _)) => Some(OutputView { address: a, payload: p }),
            None => None,
        },
        None => None,
    }
}

impl Wire for Input {
    open spec fn encode(v: InputView) -> Seq<u8> {
        encode_input(v)
    }

    open spec fn decode(s: Seq<u8>) -> Option<InputView> {
        decode_input(s)
    }

    open spec fn fits(v: InputView) -> bool {
        match v {
            InputView::Send(_, p) => p.len() <= u64::MAX,
            InputView::Join(_) => true,
        }
    }

    fn pack_into(&self, out: &mut Vec<u8>) {
        match self {
            Input::Send(a, p) => {
                crate::codec::push_u32(out, 0);
                a.push_wire(out);
                crate::codec::push_framed(out, p.as_slice());
            },
            Input::Join(a) => {
                crate::codec::push_u32(out, 1);
                a.push_wire(out);
            },
        }
        assert(out@ =~= old(out)@ + encode_input(self@));
    }

    fn unpack_from(data: &[u8]) -> (r: Option<Input>) {
        assert(data@.skip(0) =~= data@);
        match crate::codec::read_u32(data, 0) {
            None => None,
            Some((tag, p)) => {
                if tag == 0 {
                    match Address::read_wire(data, p) {
                        None => None,
                        Some((a, q)) => match crate::codec::read_framed(data, q) {
                            None => None,
                            Some((payload, _)) => Some(Input::Send(a, payload)),
                        },
                    }
                } else if tag == 1 {
                    match Address::read_wire(data, p) {
                        None => None,
                        Some((a, _)) => Some(Input::Join(a)),
                    }
                } else {
                    None
                }
            },
        }
    }

    proof fn lemma_roundtrip(v: InputView, rest: Seq<u8>) {
        match v {
            InputView::Send(a, p) => {
                let s = encode_input(v) + rest;
                assert(s =~= le_u32(0) + (encode_address(a) + (framed(p) + rest)));
                crate::codec::lemma_parse_u32(0, encode_address(a) + (framed(p) + rest));
                crate::address::lemma_parse_address(a, framed(p) + rest);
                crate::codec::lemma_parse_framed(p, rest);
            },
            InputView::Join(a) => {
                let s = encode_input(v) + rest;
                assert(s =~= le_u32(1) + (encode_address(a) + rest));
                crate::codec::lemma_parse_u32(1, encode_address(a) + rest);
                crate::address::lemma_parse_address(a, rest);
            },
        }
    }

    proof fn lemma_canonical(s: Seq<u8>) {
        crate::codec::lemma_parse_u32_canonical(s);
        let (tag, r) = parse_u32(s).unwrap();
        crate::address::lemma_parse_address_canonical(r);
        let (a, r2) = parse_address(r).unwrap();
        if tag == 0 {
            crate::codec::lemma_parse_framed_canonical(r2);
            let (p, r3) = parse_framed(r2).unwrap();
            assert(s =~= encode_input(InputView::Send(a, p)) + r3);
        } else {
            assert(s =~= encode_input(InputView::Join(a)) + r2);
        }
    }
}

impl Wire for Output {
    open spec fn encode(v: OutputView) -> Seq<u8> {
        encode_output(v)
    }

    open spec fn decode(s: Seq<u8>) -> Option<OutputView> {
        decode_output(s)
    }

    open spec fn fits(v: OutputView) -> bool {
        v.payload.len() <= u64::MAX
    }

    fn pack_into(&self, out: &mut Vec<u8>) {
        self.address.push_wire(out);
        crate::codec::push_framed(out, self.payload.as_slice());
        assert(out@ =~= old(out)@ + encode_output(self@));
    }

    fn unpack_from(data: &[u8]) -> (r: Option<Output>) {
        assert(data@.skip(0) =~= data@);
        match Address::read_wire(data, 0) {
            None => None,
            Some((address, q)) => match crate::codec::read_framed(data, q) {
                None => None,
                Some((payload, _)) => Some(Output { address, payload }),
            },
        }
    }

    proof fn lemma_roundtrip(v: OutputView, rest: Seq<u8>) {
        let s = encode_output(v) + rest;
        assert(s =~= encode_address(v.address) + (framed(v.payload) + rest));
        crate::address::lemma_parse_address(v.address, framed(v.payload) + rest);
        crate::codec::lemma_parse_framed(v.payload, rest);
    }

    proof fn lemma_canonical(s: Seq<u8>) {
        crate::address::lemma_parse_address_canonical(s);
        let (a, r) = parse_address(s).unwrap();
        crate::codec::lemma_parse_framed_canonical(r);
        let (p, r2) = parse_framed(r).unwrap();
        assert(s =~= encode_output(OutputView { address: a, payload: p }) + r2);
    }
}

} // verus!
