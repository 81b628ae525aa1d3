//! Signed payloads: a payload travels with the sender's public key and an
//! Ed25519 signature over it, so that the receiver learns who sent it.

use vstd::prelude::*;

use crate::codec::{framed, parse_framed};
use crate::transport::Wire;

verus! {

/// The protobuf encoding (as libp2p writes it) of the public key that belongs
/// to the Ed25519 secret key `secret`.
pub uninterp spec fn ed25519_public_key(secret: Seq<u8>) -> Seq<u8>;

/// The Ed25519 signature that the secret key `secret` makes over `msg`.
pub uninterp spec fn ed25519_signature(secret: Seq<u8>, msg: Seq<u8>) -> Seq<u8>;

/// Whether libp2p reads `public_key` as a protobuf-encoded public key.
pub uninterp spec fn public_key_decodes(public_key: Seq<u8>) -> bool;

/// Whether libp2p accepts `sig` as a signature over `msg` by `public_key`.
pub uninterp spec fn signature_verifies(public_key: Seq<u8>, msg: Seq<u8>, sig: Seq<u8>) -> bool;

/// The bytes of the libp2p peer id of `public_key`.
pub uninterp spec fn peer_id_of(public_key: Seq<u8>) -> Seq<u8>;

/// Calls `libp2p::identity::ed25519::SecretKey::generate`. Claims only that the
/// key has 32 bytes; the bytes come from the operating system's random source.
#[verifier::external_body]
fn generate_secret() -> (secret: Vec<u8>)
    ensures
        secret@.len() == 32,
{
    libp2p::identity::ed25519::SecretKey::generate().as_ref().to_vec()
}

/// Calls `libp2p::identity::PublicKey::encode_protobuf` on the public key of the
/// Ed25519 keypair made from `secret` (`Keypair::ed25519_from_bytes`, which
/// accepts any 32 bytes). Claims that the result is the one named by
/// `ed25519_public_key` and that `PublicKey::try_decode_protobuf` reads it back.
#[verifier::external_body]
fn encode_public_key(secret: &[u8]) -> (public_key: Vec<u8>)
    requires
        secret@.len() == 32,
    ensures
        public_key@ == ed25519_public_key(secret@),
        public_key_decodes(public_key@),
{
    let keypair = libp2p::identity::Keypair::ed25519_from_bytes(secret.to_vec()).expect("32 bytes");
    keypair.public().encode_protobuf()
}

/// Calls `libp2p::identity::Keypair::sign` on the Ed25519 keypair made from
/// `secret`. Claims that it succeeds (the Ed25519 branch of `sign` always
/// returns `Ok`), that the signature is the one named by `ed25519_signature`
/// (Ed25519 signing is deterministic), and that the public key of the same
/// secret accepts it, which `PublicKey::verify` documents as its purpose.
#[verifier::external_body]
fn sign_with_secret(secret: &[u8], msg: &[u8]) -> (signature: Option<Vec<u8>>)
    requires
        secret@.len() == 32,
    ensures
        signature is Some,
        signature matches Some(s) ==> s@ == ed25519_signature(secret@, msg@),
        signature matches Some(s) ==> signature_verifies(ed25519_public_key(secret@), msg@, s@),
{
    let keypair = libp2p::identity::Keypair::ed25519_from_bytes(secret.to_vec()).expect("32 bytes");
    match keypair.sign(msg) {
        Ok(s) => Some(s),
        Err(_) => None,
    }
}

/// Calls `libp2p::identity::PublicKey::try_decode_protobuf` and reports whether
/// it succeeded.
#[verifier::external_body]
fn decodes_public_key(public_key: &[u8]) -> (ok: bool)
    ensures
        ok == public_key_decodes(public_key@),
{
    libp2p::identity::PublicKey::try_decode_protobuf(public_key).is_ok()
}

/// Calls `libp2p::identity::PublicKey::verify` on the decoded `public_key`.
/// Claims that the answer is the one named by `signature_verifies`.
#[verifier::external_body]
fn verify_signature(public_key: &[u8], msg: &[u8], sig: &[u8]) -> (ok: bool)
    requires
        public_key_decodes(public_key@),
    ensures
        ok == signature_verifies(public_key@, msg@, sig@),
{
    match libp2p::identity::PublicKey::try_decode_protobuf(public_key) {
        Ok(key) => key.verify(msg, sig),
        Err(_) => false,
    }
}

/// Calls `libp2p::identity::PublicKey::to_peer_id` on the decoded `public_key`
/// and returns the peer id's bytes (`PeerId::to_bytes`). Claims that they are the
/// ones named by `peer_id_of`.
#[verifier::external_body]
fn peer_id_bytes(public_key: &[u8]) -> (id: Vec<u8>)
    requires
        public_key_decodes(public_key@),
    ensures
        id@ == peer_id_of(public_key@),
{
    match libp2p::identity::PublicKey::try_decode_protobuf(public_key) {
        Ok(key) => key.to_peer_id().to_bytes(),
        Err(_) => Vec::new(),
    }
}

/// Why a signed payload could not be made or read.
#[derive(Clone, Copy, Debug, PartialEq, Eq, Structural)]
pub enum Error {
    /// The bytes are not a signed message.
    Serde,
    /// The signature does not match the payload and the public key.
    InvalidSignature,
    /// The payload could not be signed.
    SignError,
    /// The public key could not be decoded.
    PublicKey,
}

/// A peer's signing identity: an Ed25519 secret key.
pub struct Identity {
    secret: Vec<u8>,
}

impl View for Identity {
    type V = Seq<u8>;

    closed spec fn view(&self) -> Seq<u8> {
        self.secret@
    }
}

impl Identity {
    #[verifier::type_invariant]
    spec fn well_formed(self) -> bool {
        self.secret@.len() == 32
    }

    /// A fresh random identity.
    pub fn new() -> (id: Identity)
        ensures
            id@.len() == 32,
    {
        Identity { secret: generate_secret() }
    }

    /// The identity with the given Ed25519 secret key, which must have 32 bytes.
    pub fn from_secret(secret: &[u8]) -> (id: Option<Identity>)
        ensures
            secret@.len() == 32 <==> id is Some,
            id matches Some(i) ==> i@ == secret@,
    {
        if secret.len() == 32 {
            Some(Identity { secret: vstd::slice::slice_to_vec(secret) })
        } else {
            None
        }
    }

    /// The protobuf-encoded public key of this identity.
    pub fn public_key(&self) -> (pk: Vec<u8>)
        ensures
            pk@ == ed25519_public_key(self@),
            public_key_decodes(pk@),
    {
        proof {
            use_type_invariant(self);
        }
        encode_public_key(self.secret.as_slice())
    }

    /// The peer id under which others see this identity.
    pub fn as_peer(&self) -> (peer: PeerId)
        ensures
            peer@ == peer_id_of(ed25519_public_key(self@)),
    {
        let pk = self.public_key();
        PeerId { bytes: peer_id_bytes(pk.as_slice()) }
    }
}

impl Clone for Identity {
    fn clone(&self) -> (c: Identity)
        ensures
            c@ == self@,
    {
        proof {
            use_type_invariant(self);
        }
        Identity { secret: vstd::slice::slice_to_vec(self.secret.as_slice()) }
    }
}

/// Identifier of a peer of the network: the bytes of its libp2p peer id.
#[derive(Debug)]
pub struct PeerId {
    pub bytes: Vec<u8>,
}

impl View for PeerId {
    type V = Seq<u8>;

    open spec fn view(&self) -> Seq<u8> {
        self.bytes@
    }
}

impl PeerId {
    pub fn from_bytes(bytes: &[u8]) -> (p: PeerId)
        ensures
            p@ == bytes@,
    {
        PeerId { bytes: vstd::slice::slice_to_vec(bytes) }
    }

    /// Whether both name the same peer.
    pub fn same(&self, other: &PeerId) -> (r: bool)
        ensures
            r == (self@ == other@),
    {
        if self.bytes.len() != other.bytes.len() {
            return false;
        }
        let mut i: usize = 0;
        while i < self.bytes.len()
            invariant
                i <= self@.len(),
                self@.len() == other@.len(),
                forall|j: int| 0 <= j < i ==> self@[j] == other@[j],
            decreases self@.len() - i,
        {
            if self.bytes[i] != other.bytes[i] {
                return false;
            }
            i = i + 1;
        }
        assert(self@ =~= other@);
        true
    }
}

impl Clone for PeerId {
    fn clone(&self) -> (c: PeerId)
        ensures
            c@ == self@,
    {
        PeerId { bytes: vstd::slice::slice_to_vec(self.bytes.as_slice()) }
    }
}

/// A protobuf-encoded public key, carried as opaque bytes.
pub struct OpaquePublicKey(pub Vec<u8>);

/// The bytes of a signature.
pub struct Signature(pub Vec<u8>);

/// A payload with the key that signed it and the signature.
pub struct Message {
    pub public_key: OpaquePublicKey,
    pub signature: Signature,
    pub payload: Vec<u8>,
}

/// The mathematical value of a [`Message`].
pub struct MessageView {
    pub public_key: Seq<u8>,
    pub signature: Seq<u8>,
    pub payload: Seq<u8>,
}

impl View for Message {
    type V = MessageView;

    open spec fn view(&self) -> MessageView {
        MessageView {
            public_key: self.public_key.0@,
            signature: self.signature.0@,
            payload: self.payload@,
        }
    }
}

pub open spec fn encode_message(m: MessageView) -> Seq<u8> {
    framed(m.public_key) + framed(m.signature) + framed(m.payload)
}

pub open spec fn decode_message(s: Seq<u8>) -> Option<MessageView> {
    match parse_framed(s) {
        Some((pk, r1)) => match parse_framed(r1) {
            Some((sig, r2)) => match parse_framed(r2) {
                Some((p, _)) => Some(MessageView { public_key: pk, signature: sig, payload: p }),
                None => None,
            },
            None => None,
        },
        None => None,
    }
}

impl Wire for Message {
    open spec fn encode(v: MessageView) -> Seq<u8> {
        encode_message(v)
    }

    open spec fn decode(s: Seq<u8>) -> Option<MessageView> {
        decode_message(s)
    }

    open spec fn fits(v: MessageView) -> bool {
        &&& v.public_key.len() <= u64::MAX
        &&& v.signature.len() <= u64::MAX
        &&& v.payload.len() <= u64::MAX
    }

    fn pack_into(&self, out: &mut Vec<u8>) {
        crate::codec::push_framed(out, self.public_key.0.as_slice());
        crate::codec::push_framed(out, self.signature.0.as_slice());
        crate::codec::push_framed(out, self.payload.as_slice());
        assert(out@ =~= old(out)@ + encode_message(self@));
    }

    fn unpack_from(data: &[u8]) -> (r: Option<Message>) {
        assert(data@.skip(0) =~= data@);
        match crate::codec::read_framed(data, 0) {
            None => None,
            Some((pk, p1)) => match crate::codec::read_framed(data, p1) {
                None => None,
                Some((sig, p2)) => match crate::codec::read_framed(data, p2) {
                    None => None,
                    Some((payload, _)) => Some(
                        Message {
                            public_key: OpaquePublicKey(pk),
                            signature: Signature(sig),
                            payload,
                        },
                    ),
                },
            },
        }
    }

    proof fn lemma_roundtrip(v: MessageView, rest: Seq<u8>) {
        let s = encode_message(v) + rest;
        assert(s =~= framed(v.public_key) + (framed(v.signature) + (framed(v.payload) + rest)));
        crate::codec::lemma_parse_framed(
            v.public_key,
            framed(v.signature) + (framed(v.payload) + rest),
        );
        crate::codec::lemma_parse_framed(v.signature, framed(v.payload) + rest);
        crate::codec::lemma_parse_framed(v.payload, rest);
    }

    proof fn lemma_canonical(s: Seq<u8>) {
        crate::codec::lemma_parse_framed_canonical(s);
        let (pk, r1) = parse_framed(s).unwrap();
        crate::codec::lemma_parse_framed_canonical(r1);
        let (sig, r2) = parse_framed(r1).unwrap();
        crate::codec::lemma_parse_framed_canonical(r2);
        let (p, r3) = parse_framed(r2).unwrap();
        let m = MessageView { public_key: pk, signature: sig, payload: p };
        assert(decode_message(s) == Some(m));
        let e = encode_message(m);
        assert(s == framed(pk) + (framed(sig) + (framed(p) + r3)));
        assert(s =~= e + r3);
        assert(s.subrange(0, e.len() as int) =~= e);
    }
}

/// The outcome of checking a signed message: the signer's peer id, or why the
/// check failed.
pub open spec fn verify_outcome(m: MessageView) -> Result<Seq<u8>, Error> {
    if !public_key_decodes(m.public_key) {
        Err(Error::PublicKey)
    } else if !signature_verifies(m.public_key, m.payload, m.signature) {
        Err(Error::InvalidSignature)
    } else {
        Ok(peer_id_of(m.public_key))
    }
}

impl Message {
    /// Checks the signature; on success returns the signer's peer id.
    pub fn verify(&self) -> (r: Result<PeerId, Error>)
        ensures
            match verify_outcome(self@) {
                Ok(peer) => r matches Ok(p) && p@ == peer,
                Err(e) => r matches Err(e2) && e2 == e,
            },
    {
        if !decodes_public_key(self.public_key.0.as_slice()) {
            return Err(Error::PublicKey);
        }
        let verified = verify_signature(
            self.public_key.0.as_slice(),
            self.payload.as_slice(),
            self.signature.0.as_slice(),
        );
        if verified {
            Ok(PeerId { bytes: peer_id_bytes(self.public_key.0.as_slice()) })
        } else {
            Err(Error::InvalidSignature)
        }
    }
}

/// The signed message that `secret` makes of `payload`.
pub open spec fn signed(secret: Seq<u8>, payload: Seq<u8>) -> MessageView {
    MessageView {
        public_key: ed25519_public_key(secret),
        signature: ed25519_signature(secret, payload),
        payload,
    }
}

/// What reading the bytes `s` as a signed payload gives: the payload and the
/// signer's peer id, or the reason it is refused.
pub open spec fn unpack_outcome(s: Seq<u8>) -> Result<(Seq<u8>, Seq<u8>), Error> {
    match decode_message(s) {
        None => Err(Error::Serde),
        Some(m) => match verify_outcome(m) {
            Err(e) => Err(e),
            Ok(peer) => Ok((m.payload, peer)),
        },
    }
}

/// Signs the (already serialised) `payload` with `identity` and returns the
/// wire form of the signed message.
///
/// Reading the result back with [`unpack`] gives the payload and the peer id of
/// `identity`.
pub fn pack(payload: &[u8], identity: &Identity) -> (r: Result<Vec<u8>, Error>)
    ensures
        r matches Ok(bytes) && bytes@ == encode_message(signed(identity@, payload@)),
        unpack_outcome(encode_message(signed(identity@, payload@))) == Ok::<
            (Seq<u8>, Seq<u8>),
            Error,
        >((payload@, peer_id_of(ed25519_public_key(identity@)))),
{
    proof {
        use_type_invariant(identity);
    }
    let sig = match sign_with_secret(identity.secret.as_slice(), payload) {
        Some(s) => s,
        None => return Err(Error::SignError),
    };
    let public_key = encode_public_key(identity.secret.as_slice());
    let message = Message {
        public_key: OpaquePublicKey(public_key),
        signature: Signature(sig),
        payload: vstd::slice::slice_to_vec(payload),
    };
    let bytes = crate::transport::pack(&message);
    Ok(bytes)
}

/// Reads a signed message, checks its signature, and returns the payload with
/// the signer's peer id.
pub fn unpack(data: &[u8]) -> (r: Result<(Vec<u8>, PeerId), Error>)
    ensures
        match unpack_outcome(data@) {
            Ok((p, peer)) => r matches Ok((p2, peer2)) && p2@ == p && peer2@ == peer,
            Err(e) => r matches Err(e2) && e2 == e,
        },
{
    let message: Message = match crate::transport::unpack(data) {
        Some(m) => m,
        None => return Err(Error::Serde),
    };
    let peer = match message.verify() {
        Ok(p) => p,
        Err(e) => return Err(e),
    };
    Ok((message.payload, peer))
}

} // verus!
