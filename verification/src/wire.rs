//! The fields of a Protocol Buffers message: what `prost` writes for one field
//! and what it reads back. The functions that call `prost` are believed, not
//! proved; each says above it what is claimed of the call.

use prost::DecodeError;
use vstd::prelude::*;
use vstd::utf8::{decode_utf8, encode_utf8, valid_utf8};
use crate::text::Text;

verus! {

/// The error with which `prost` refuses a message.
#[verifier::external_type_specification]
#[verifier::external_body]
pub struct ExDecodeError(prost::DecodeError);

/// The largest number that a field can have.
pub const MAX_TAG: u32 = 536_870_911;

/// How many bytes an encoded integer has at most.
pub open spec fn max_varint_len() -> nat {
    10
}

/// An integer in groups of seven bits, least significant first; every byte but
/// the last has its high bit set.
pub open spec fn varint(value: nat) -> Seq<u8>
    decreases value,
{
    if value < 0x80 {
        seq![value as u8]
    } else {
        seq![(value % 0x80 + 0x80) as u8] + varint(value / 0x80)
    }
}

/// The integer that at most `limit` bytes at the start of `bytes` encode, and
/// the bytes behind it; `None` where they do not end.
pub open spec fn read_groups(bytes: Seq<u8>, limit: nat) -> Option<(nat, Seq<u8>)>
    decreases limit,
{
    if bytes.len() == 0 || limit == 0 {
        None
    } else if bytes[0] < 0x80 {
        Some((bytes[0] as nat, bytes.skip(1)))
    } else {
        match read_groups(bytes.skip(1), (limit - 1) as nat) {
            Some((high, rest)) => Some(((bytes[0] - 0x80 + 0x80 * high) as nat, rest)),
            None => None,
        }
    }
}

/// The 64-bit integer at the start of `bytes`, and the bytes behind it.
pub open spec fn read_varint(bytes: Seq<u8>) -> Option<(nat, Seq<u8>)> {
    match read_groups(bytes, max_varint_len()) {
        Some((value, rest)) => if value <= u64::MAX {
            Some((value, rest))
        } else {
            None
        },
        None => None,
    }
}

/// The key in front of field `tag`, whose value has the form `wire`.
pub open spec fn key(tag: u32, wire: u64) -> Seq<u8> {
    varint((tag * 8 + wire) as nat)
}

/// The field number and the form that the key at the start of `bytes` gives, and
/// the bytes behind it.
pub open spec fn read_key(bytes: Seq<u8>) -> Option<(u32, u64, Seq<u8>)> {
    match read_varint(bytes) {
        Some((value, rest)) => if value <= u32::MAX && value % 8 <= 5 && value / 8 >= 1 {
            Some(((value / 8) as u32, (value % 8) as u64, rest))
        } else {
            None
        },
        None => None,
    }
}

/// `bytes` behind their length.
pub open spec fn delimited(bytes: Seq<u8>) -> Seq<u8> {
    varint(bytes.len()) + bytes
}

/// The bytes that stand behind their length at the start of `bytes`, and what
/// follows them.
pub open spec fn read_delimited(bytes: Seq<u8>) -> Option<(Seq<u8>, Seq<u8>)> {
    match read_varint(bytes) {
        Some((len, rest)) => if len <= rest.len() {
            Some((rest.take(len as int), rest.skip(len as int)))
        } else {
            None
        },
        None => None,
    }
}

/// The form of integers.
pub const VARINT: u64 = 0;

/// The form of strings, byte strings and nested messages.
pub const LENGTH_DELIMITED: u64 = 2;

/// A signed integer as the unsigned 64-bit integer with the same bits, the sign
/// carried upwards.
pub open spec fn unsigned(value: i32) -> nat {
    if value >= 0 {
        value as nat
    } else {
        (value + 0x1_0000_0000_0000_0000) as nat
    }
}

/// The signed integer that the lowest 32 bits of `value` stand for.
pub open spec fn signed(value: nat) -> i32 {
    let low = value % 0x1_0000_0000;
    if low < 0x8000_0000 {
        low as i32
    } else {
        (low - 0x1_0000_0000) as i32
    }
}

/// Field `tag` with an integer.
pub open spec fn int32_field(tag: u32, value: i32) -> Seq<u8> {
    key(tag, VARINT) + varint(unsigned(value))
}

/// Field `tag` with a byte string.
pub open spec fn bytes_field(tag: u32, value: Seq<u8>) -> Seq<u8> {
    key(tag, LENGTH_DELIMITED) + delimited(value)
}

/// Field `tag` with a string.
pub open spec fn string_field(tag: u32, value: Text) -> Seq<u8> {
    bytes_field(tag, encode_utf8(value))
}

/// The integer value of a field of form `wire`, and the bytes behind it.
pub open spec fn read_int32(wire: u64, bytes: Seq<u8>) -> Option<(i32, Seq<u8>)> {
    if wire != VARINT {
        None
    } else {
        match read_varint(bytes) {
            Some((value, rest)) => Some((signed(value), rest)),
            None => None,
        }
    }
}

/// The byte string of a field of form `wire`, and the bytes behind it.
pub open spec fn read_bytes(wire: u64, bytes: Seq<u8>) -> Option<(Seq<u8>, Seq<u8>)> {
    if wire != LENGTH_DELIMITED {
        None
    } else {
        read_delimited(bytes)
    }
}

/// The string of a field of form `wire`, and the bytes behind it.
pub open spec fn read_string(wire: u64, bytes: Seq<u8>) -> Option<(Text, Seq<u8>)> {
    match read_bytes(wire, bytes) {
        Some((value, rest)) => if valid_utf8(value) {
            Some((decode_utf8(value), rest))
        } else {
            None
        },
        None => None,
    }
}

/// The form that opens a group of fields.
pub const START_GROUP: u64 = 3;

/// The form that closes a group of fields.
pub const END_GROUP: u64 = 4;

/// How many levels of nested messages and groups are read.
pub const MAX_DEPTH: u32 = 100;

/// What follows a value of form `wire` that is no group, at the start of `bytes`.
pub open spec fn behind_value(wire: u64, bytes: Seq<u8>) -> Option<Seq<u8>> {
    if wire == 0 {
        match read_varint(bytes) {
            Some((_, rest)) => Some(rest),
            None => None,
        }
    } else if wire == 1 {
        if bytes.len() >= 8 {
            Some(bytes.skip(8))
        } else {
            None
        }
    } else if wire == 2 {
        match read_delimited(bytes) {
            Some((_, rest)) => Some(rest),
            None => None,
        }
    } else if wire == 5 {
        if bytes.len() >= 4 {
            Some(bytes.skip(4))
        } else {
            None
        }
    } else {
        None
    }
}

/// What follows the value of a field of form `wire` at the start of `bytes`,
/// where `depth` levels may still be read.
pub open spec fn behind_field(wire: u64, tag: u32, bytes: Seq<u8>, depth: nat) -> Option<Seq<u8>>
    decreases depth, bytes.len(), 1nat,
{
    if depth == 0 {
        None
    } else if wire == START_GROUP {
        behind_group(tag, bytes, depth)
    } else {
        behind_value(wire, bytes)
    }
}

/// What follows the group that was opened with field number `tag`: fields, each
/// one level deeper, up to the end of the group with that number.
pub open spec fn behind_group(tag: u32, bytes: Seq<u8>, depth: nat) -> Option<Seq<u8>>
    decreases depth, bytes.len(), 0nat,
{
    match read_key(bytes) {
        Some((inner, wire, value)) => if depth == 0 {
            None
        } else if wire == END_GROUP {
            if inner == tag {
                Some(value)
            } else {
                None
            }
        } else {
            match behind_field(wire, inner, value, (depth - 1) as nat) {
                Some(rest) => if rest.len() < bytes.len() {
                    behind_group(tag, rest, depth)
                } else {
                    None
                },
                None => None,
            }
        },
        None => None,
    }
}

/// Calls `prost::encoding::int32::encode`, which appends the field's key and the
/// sign-extended value to the buffer and leaves what the buffer held.
#[verifier::external_body]
pub(crate) fn put_int32(tag: u32, value: i32, buf: &mut Vec<u8>)
    requires
        1 <= tag <= MAX_TAG,
    ensures
        final(buf)@ == old(buf)@ + int32_field(tag, value),
{
    prost::encoding::int32::encode(tag, &value, buf);
}

/// Calls `prost::encoding::string::encode`, which appends the field's key, the
/// length of the string in bytes and its UTF-8 bytes to the buffer.
#[verifier::external_body]
pub(crate) fn put_string(tag: u32, value: &String, buf: &mut Vec<u8>)
    requires
        1 <= tag <= MAX_TAG,
    ensures
        final(buf)@ == old(buf)@ + string_field(tag, value@),
{
    prost::encoding::string::encode(tag, value, buf);
}

/// Calls `prost::encoding::bytes::encode`, which appends the field's key, the
/// number of bytes and the bytes to the buffer.
#[verifier::external_body]
pub(crate) fn put_bytes(tag: u32, value: &Vec<u8>, buf: &mut Vec<u8>)
    requires
        1 <= tag <= MAX_TAG,
    ensures
        final(buf)@ == old(buf)@ + bytes_field(tag, value@),
{
    prost::encoding::bytes::encode(tag, value, buf);
}

/// Calls `prost::encoding::decode_key`, which reads one integer and takes it
/// apart into a field number of at least one and one of six forms; it refuses
/// any other integer, and bytes that hold none.
#[verifier::external_body]
pub(crate) fn take_key<'a>(buf: &'a [u8]) -> (result: Result<(u32, u64, &'a [u8]), DecodeError>)
    ensures
        match result {
            Ok((tag, wire, rest)) => read_key(buf@) == Some((tag, wire, rest@)),
            Err(_) => read_key(buf@) is None,
        },
{
    let mut rest = buf;
    let (tag, wire_type) = prost::encoding::decode_key(&mut rest)?;
    Ok((tag, wire_type as u64, rest))
}

/// Calls `prost::encoding::int32::merge`, which refuses any form but that of
/// integers, and otherwise gives the lowest 32 bits of the integer that it reads.
#[verifier::external_body]
pub(crate) fn take_int32<'a>(wire: u64, buf: &'a [u8]) -> (result: Result<
    (i32, &'a [u8]),
    DecodeError,
>)
    ensures
        match result {
            Ok((value, rest)) => read_int32(wire, buf@) == Some((value, rest@)),
            Err(_) => read_int32(wire, buf@) is None,
        },
{
    let wire_type = prost::encoding::WireType::try_from(wire)?;
    let (mut value, mut rest) = (0i32, buf);
    prost::encoding::int32::merge(wire_type, &mut value, &mut rest, Default::default())?;
    Ok((value, rest))
}

/// Calls `prost::encoding::string::merge`, which refuses any form but the
/// length-delimited one, a length beyond the end, and bytes that are not UTF-8,
/// and otherwise replaces the string that it was handed.
#[verifier::external_body]
pub(crate) fn take_string<'a>(wire: u64, buf: &'a [u8]) -> (result: Result<
    (String, &'a [u8]),
    DecodeError,
>)
    ensures
        match result {
            Ok((value, rest)) => read_string(wire, buf@) == Some((value@, rest@)),
            Err(_) => read_string(wire, buf@) is None,
        },
{
    let wire_type = prost::encoding::WireType::try_from(wire)?;
    let (mut value, mut rest) = (String::new(), buf);
    prost::encoding::string::merge(wire_type, &mut value, &mut rest, Default::default())?;
    Ok((value, rest))
}

/// Calls `prost::encoding::bytes::merge`, which refuses any form but the
/// length-delimited one and a length beyond the end, and otherwise replaces the
/// bytes that it was handed.
#[verifier::external_body]
pub(crate) fn take_bytes<'a>(wire: u64, buf: &'a [u8]) -> (result: Result<
    (Vec<u8>, &'a [u8]),
    DecodeError,
>)
    ensures
        match result {
            Ok((value, rest)) => read_bytes(wire, buf@) == Some((value@, rest@)),
            Err(_) => read_bytes(wire, buf@) is None,
        },
{
    let wire_type = prost::encoding::WireType::try_from(wire)?;
    let (mut value, mut rest) = (Vec::new(), buf);
    prost::encoding::bytes::merge(wire_type, &mut value, &mut rest, Default::default())?;
    Ok((value, rest))
}

/// Calls `prost::encoding::skip_field`, which passes over one value of the given
/// form. It refuses a value that is cut short, and a form that is the end of a
/// group or none at all. Groups are left out: how deep they may nest depends on
/// where they stand.
#[verifier::external_body]
pub(crate) fn skip_value<'a>(wire: u64, tag: u32, buf: &'a [u8]) -> (result: Result<
    &'a [u8],
    DecodeError,
>)
    requires
        wire != START_GROUP,
    ensures
        match result {
            Ok(rest) => behind_value(wire, buf@) == Some(rest@),
            Err(_) => behind_value(wire, buf@) is None,
        },
{
    let wire_type = prost::encoding::WireType::try_from(wire)?;
    let mut rest = buf;
    prost::encoding::skip_field(wire_type, tag, &mut rest, Default::default())?;
    Ok(rest)
}

/// Calls `prost::DecodeError::new`, which makes an error with a description.
/// Nothing is claimed of the error.
#[verifier::external_body]
pub(crate) fn refusal(description: &'static str) -> (error: DecodeError) {
    DecodeError::new(description)
}

} // verus!
