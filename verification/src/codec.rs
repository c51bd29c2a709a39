//! The pieces of the SCALE encoding that blocks and transactions are made of.

use vstd::prelude::*;
use vstd::utf8::{decode_utf8, valid_utf8};
use parity_scale_codec::{Compact, Decode, Encode};

use crate::bytes::{extend, le_bytes, le_value};

verus! {

/// The compact encoding of a length: the two lowest bits of the first byte tell how many
/// bytes follow.
pub open spec fn compact_bytes(n: nat) -> Seq<u8> {
    if n < 0x40 {
        le_bytes(4 * n, 1)
    } else if n < 0x4000 {
        le_bytes(4 * n + 1, 2)
    } else if n < 0x4000_0000 {
        le_bytes(4 * n + 2, 4)
    } else {
        seq![3u8] + le_bytes(n, 4)
    }
}

/// The encoding of a byte string: its length in compact form, then its bytes.
pub open spec fn prefixed_bytes(bytes: Seq<u8>) -> Seq<u8> {
    compact_bytes(bytes.len()) + bytes
}

/// The encoding of a `bool`: one byte, which is 0 or 1.
pub open spec fn bool_bytes(value: bool) -> Seq<u8> {
    seq![if value { 1u8 } else { 0u8 }]
}

/// How many bytes a number in compact form takes whose first byte is `first`.
pub open spec fn compact_width(first: u8) -> nat {
    if first % 4 == 0 {
        1
    } else if first % 4 == 1 {
        2
    } else if first % 4 == 2 {
        4
    } else {
        5
    }
}

/// The number of at most four bytes whose compact form is at the front of `input`, if there
/// is one. A longer form than the number asks for is none.
pub open spec fn compact_value(input: Seq<u8>) -> Option<nat> {
    if input.len() == 0 || input.len() < compact_width(input[0]) {
        None
    } else {
        let front = input.subrange(0, compact_width(input[0]) as int);
        let value = if front.len() < 5 {
            le_value(front) / 4
        } else {
            le_value(front.skip(1))
        };
        if compact_bytes(value) == front {
            Some(value)
        } else {
            None
        }
    }
}

/// The text whose encoding is at the front of `input`, if there is one: a length in compact
/// form, then that many bytes of UTF-8. What follows is not looked at.
pub open spec fn decoded_string(input: Seq<u8>) -> Option<Seq<char>> {
    match compact_value(input) {
        Some(len) => {
            let start = compact_width(input[0]);
            if input.len() >= start + len && valid_utf8(
                input.subrange(start as int, (start + len) as int),
            ) {
                Some(decode_utf8(input.subrange(start as int, (start + len) as int)))
            } else {
                None
            }
        },
        None => None,
    }
}

/// Reads a `u32` off the front of `input`.
///
/// Calls `u32::decode` of `parity-scale-codec`, which reads four bytes in little-endian
/// order, fails where fewer are there, and pays no heed to what follows them.
#[verifier::external_body]
pub(crate) fn decode_u32(input: &[u8]) -> (r: Option<u32>)
    ensures
        r is Some <==> input@.len() >= 4,
        r matches Some(v) ==> v == le_value(input@.subrange(0, 4)),
{
    let mut rest = input;
    u32::decode(&mut rest).ok()
}

/// Reads a `u64` off the front of `input`.
///
/// Calls `u64::decode` of `parity-scale-codec`, which reads eight bytes in little-endian
/// order, fails where fewer are there, and pays no heed to what follows them.
#[verifier::external_body]
pub(crate) fn decode_u64(input: &[u8]) -> (r: Option<u64>)
    ensures
        r is Some <==> input@.len() >= 8,
        r matches Some(v) ==> v == le_value(input@.subrange(0, 8)),
{
    let mut rest = input;
    u64::decode(&mut rest).ok()
}

/// Reads a string off the front of `input`.
///
/// Calls `String::decode` of `parity-scale-codec`, which reads a length in compact form and
/// that many bytes, and fails where the length is not in its shortest form, where fewer bytes
/// are there, and where they are not UTF-8. It pays no heed to what follows them.
#[verifier::external_body]
pub(crate) fn decode_string(input: &[u8]) -> (r: Option<String>)
    ensures
        r is Some <==> decoded_string(input@) is Some,
        r matches Some(s) ==> decoded_string(input@) == Some(s@),
{
    let mut rest = input;
    String::decode(&mut rest).ok()
}

/// The encoding of a `u32`.
///
/// Calls `u32::encode` of `parity-scale-codec`, which writes four bytes in little-endian
/// order.
#[verifier::external_body]
pub(crate) fn encode_u32(value: u32) -> (r: Vec<u8>)
    ensures
        r@ == le_bytes(value as nat, 4),
{
    value.encode()
}

/// The encoding of a `u64`.
///
/// Calls `u64::encode` of `parity-scale-codec`, which writes eight bytes in little-endian
/// order.
#[verifier::external_body]
pub(crate) fn encode_u64(value: u64) -> (r: Vec<u8>)
    ensures
        r@ == le_bytes(value as nat, 8),
{
    value.encode()
}

/// The compact encoding of a `u32`.
///
/// Calls `Compact::<u32>::encode` of `parity-scale-codec`, which writes one, two, four or
/// five bytes, as the size of the number asks, and keeps the mode in the two lowest bits of
/// the first.
#[verifier::external_body]
pub(crate) fn encode_compact(value: u32) -> (r: Vec<u8>)
    ensures
        r@ == compact_bytes(value as nat),
{
    Compact(value).encode()
}

/// The encoding of a byte string.
pub fn encode_prefixed(bytes: &[u8]) -> (r: Vec<u8>)
    requires
        bytes@.len() <= u32::MAX,
    ensures
        r@ == prefixed_bytes(bytes@),
{
    let mut r = encode_compact(bytes.len() as u32);
    extend(&mut r, bytes);
    r
}

} // verus!
