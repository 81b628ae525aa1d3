//! Addresses of spaces and channels: random (version 4) UUIDs, held as the
//! 128-bit number whose big-endian bytes are the UUID's bytes.

use vstd::prelude::*;

use crate::codec::{be_u128, framed, parse_framed, u128_of_be};

verus! {

/// The identifier of a space (a chat room) on the network.
#[derive(Clone, Copy, Debug, PartialEq, Eq, Hash, Structural)]
pub struct Address {
    pub id: u128,
}

impl View for Address {
    type V = u128;

    open spec fn view(&self) -> u128 {
        self.id
    }
}

/// Why a string could not be read as an address.
#[derive(Clone, Copy, Debug, PartialEq, Eq, Structural)]
pub enum ParseAddressError {
    /// The string is not a UUID in any of the accepted notations.
    NotAUuid,
}

/// Holds of every identifier that `Uuid::new_v4` hands out: the version field
/// reads 4 and the variant bits read `10` (RFC 9562).
pub open spec fn is_random_uuid(id: u128) -> bool {
    &&& (id >> 76u128) & 0xf == 4
    &&& (id >> 62u128) & 0x3 == 2
}

/// The lowercase hexadecimal digit of `v` (for `v < 16`).
pub open spec fn hex_digit(v: u128) -> char {
    if v < 10 {
        (v + 48) as char
    } else {
        (v + 87) as char
    }
}

/// The `j`-th of the 32 hexadecimal digits of `x`, most significant first.
pub open spec fn nibble(x: u128, j: int) -> u128 {
    (x >> ((4 * (31 - j)) as u128)) & 0xf
}

/// Position of the hexadecimal digit shown at column `i` of the hyphenated
/// notation `xxxxxxxx-xxxx-xxxx-xxxx-xxxxxxxxxxxx`.
pub open spec fn digit_at_column(i: int) -> int {
    if i < 8 {
        i
    } else if i < 13 {
        i - 1
    } else if i < 18 {
        i - 2
    } else if i < 23 {
        i - 3
    } else {
        i - 4
    }
}

/// The hyphenated, lowercase notation of the UUID `x` (36 characters).
pub open spec fn hyphenated(x: u128) -> Seq<char> {
    Seq::new(
        36,
        |i: int|
            if i == 8 || i == 13 || i == 18 || i == 23 {
                '-'
            } else {
                hex_digit(nibble(x, digit_at_column(i)))
            },
    )
}

/// What `uuid::Uuid::parse_str` makes of a string: the UUID as a number, or
/// `None` where it refuses the string.
pub uninterp spec fn uuid_parse(s: Seq<char>) -> Option<u128>;

/// Calls `uuid::Uuid::new_v4`. Claims only that the result carries the version
/// and variant bits of a random UUID, which the crate sets on every call; the
/// other 122 bits come from the operating system's random source.
#[verifier::external_body]
fn random_uuid() -> (id: u128)
    ensures
        is_random_uuid(id),
{
    uuid::Uuid::new_v4().as_u128()
}

/// Calls `Display` of `uuid::Uuid` (via `to_string`). Claims that the text is the
/// hyphenated lowercase notation, as the crate's `LowerHex`, to which `Display`
/// defers, writes it, and that `Uuid::parse_str` reads it back, which the
/// crate's documentation promises for every notation it writes.
#[verifier::external_body]
fn uuid_to_string(id: u128) -> (s: String)
    ensures
        s@ == hyphenated(id),
        uuid_parse(s@) == Some(id),
{
    uuid::Uuid::from_u128(id).to_string()
}

/// Calls `uuid::Uuid::parse_str`. Claims that the outcome is the one named by
/// `uuid_parse`; which strings it accepts (simple, hyphenated, braced and URN
/// notations) is not written out here.
#[verifier::external_body]
fn uuid_from_str(s: &str) -> (r: Option<u128>)
    ensures
        r == uuid_parse(s@),
{
    match uuid::Uuid::parse_str(s) {
        Ok(u) => Some(u.as_u128()),
        Err(_) => None,
    }
}

/// The wire form of an address: its sixteen bytes as a length-prefixed string.
pub open spec fn encode_address(a: u128) -> Seq<u8> {
    framed(be_u128(a))
}

/// Reads an address off the front of `s`: a length-prefixed string that must
/// hold exactly sixteen bytes.
pub open spec fn parse_address(s: Seq<u8>) -> Option<(u128, Seq<u8>)> {
    match parse_framed(s) {
        Some((b, rest)) => if b.len() == 16 {
            Some((u128_of_be(b), rest))
        } else {
            None
        },
        None => None,
    }
}

pub proof fn lemma_parse_address(a: u128, rest: Seq<u8>)
    ensures
        parse_address(encode_address(a) + rest) == Some((a, rest)),
{
    crate::codec::lemma_u128_be_roundtrip(a);
    crate::codec::lemma_parse_framed(be_u128(a), rest);
}

pub proof fn lemma_parse_address_canonical(s: Seq<u8>)
    requires
        parse_address(s) is Some,
    ensures
        s =~= encode_address(parse_address(s).unwrap().0) + parse_address(s).unwrap().1,
{
    crate::codec::lemma_parse_framed_canonical(s);
    crate::codec::lemma_u128_be_canonical(parse_framed(s).unwrap().0);
}

impl Address {
    /// A fresh random address.
    pub fn new() -> (a: Address)
        ensures
            is_random_uuid(a@),
    {
        Address { id: random_uuid() }
    }

    pub fn from_u128(id: u128) -> (a: Address)
        ensures
            a@ == id,
    {
        Address { id }
    }

    pub fn as_u128(&self) -> (id: u128)
        ensures
            id == self@,
    {
        self.id
    }

    /// The hyphenated lowercase notation of the address.
    pub fn to_string(&self) -> (s: String)
        ensures
            s@ == hyphenated(self@),
            uuid_parse(s@) == Some(self@),
    {
        uuid_to_string(self.id)
    }

    /// Reads an address in any notation that the UUID parser accepts.
    pub fn from_str(s: &str) -> (r: Result<Address, ParseAddressError>)
        ensures
            match uuid_parse(s@) {
                Some(id) => r == Ok::<Address, ParseAddressError>(Address { id }),
                None => r == Err::<Address, ParseAddressError>(ParseAddressError::NotAUuid),
            },
    {
        match uuid_from_str(s) {
            Some(id) => Ok(Address { id }),
            None => Err(ParseAddressError::NotAUuid),
        }
    }

    /// Appends the wire form of the address.
    pub fn push_wire(&self, out: &mut Vec<u8>)
        ensures
            final(out)@ == old(out)@ + encode_address(self@),
    {
        crate::codec::push_u64(out, 16);
        crate::codec::push_u128_be(out, self.id);
        assert(out@ =~= old(out)@ + encode_address(self@));
    }

    /// Reads the wire form of an address at `pos`.
    pub fn read_wire(data: &[u8], pos: usize) -> (r: Option<(Address, usize)>)
        requires
            pos <= data@.len(),
        ensures
            r is None <==> parse_address(data@.skip(pos as int)) is None,
            r matches Some((a, p)) ==> pos <= p <= data@.len() && parse_address(
                data@.skip(pos as int),
            ) == Some((a@, data@.skip(p as int))),
    {
        match crate::codec::read_u64(data, pos) {
            None => None,
            Some((n, q)) => {
                if n != 16 || data.len() - q < 16 {
                    return None;
                }
                let id = ((data[q + 0] as u128) << 120u128) | ((data[q + 1] as u128) << 112u128) | ((data[q + 2] as u128) << 104u128) | ((data[q + 3] as u128) << 96u128) | ((data[q + 4] as u128) << 88u128) | ((data[q + 5] as u128) << 80u128) | ((data[q + 6] as u128) << 72u128) | ((data[q + 7] as u128) << 64u128) | ((data[q + 8] as u128) << 56u128) | ((data[q + 9] as u128) << 48u128) | ((data[q + 10] as u128) << 40u128) | ((data[q + 11] as u128) << 32u128) | ((data[q + 12] as u128) << 24u128) | ((data[q + 13] as u128) << 16u128) | ((data[q + 14] as u128) << 8u128) | (data[q + 15] as u128);
                let ghost b = data@.skip(q as int).take(16);
                assert(b[0] == data@[q + 0]
            && b[1] == data@[q + 1]
            && b[2] == data@[q + 2]
            && b[3] == data@[q + 3]
            && b[4] == data@[q + 4]
            && b[5] == data@[q + 5]
            && b[6] == data@[q + 6]
            && b[7] == data@[q + 7]
            && b[8] == data@[q + 8]
            && b[9] == data@[q + 9]
            && b[10] == data@[q + 10]
            && b[11] == data@[q + 11]
            && b[12] == data@[q + 12]
            && b[13] == data@[q + 13]
            && b[14] == data@[q + 14]
            && b[15] == data@[q + 15]);
                assert(data@.skip(q as int).skip(16) =~= data@.skip(q + 16));
                Some((Address { id }, q + 16))
            },
        }
    }
}

} // verus!
