//! Reading a field gives back what was written, and consumes the bytes it reads.

use vstd::prelude::*;
use vstd::utf8::{encode_utf8, encode_utf8_decode_utf8, encode_utf8_valid_utf8};
use crate::text::Text;
use crate::wire::{
    behind_field, behind_group, bytes_field, delimited, int32_field, key, max_varint_len, read_bytes, read_delimited,
    read_groups, read_int32, read_key, read_string, read_varint, signed, string_field, unsigned,
    varint, END_GROUP, LENGTH_DELIMITED, MAX_TAG, START_GROUP, VARINT,
};

verus! {

/// What stands behind an encoded integer is shorter than what it was read from.
pub proof fn lemma_read_groups_consumes(bytes: Seq<u8>, limit: nat)
    ensures
        read_groups(bytes, limit) matches Some((_, rest)) ==> rest.len() < bytes.len(),
    decreases limit,
{
    if bytes.len() > 0 && limit > 0 && bytes[0] >= 0x80 {
        lemma_read_groups_consumes(bytes.skip(1), (limit - 1) as nat);
    }
}

/// Reading a key consumes at least one byte.
pub proof fn lemma_read_key_consumes(bytes: Seq<u8>)
    ensures
        read_key(bytes) matches Some((_, _, rest)) ==> rest.len() < bytes.len(),
{
    lemma_read_groups_consumes(bytes, max_varint_len());
}

/// Reading a value of any form never gives back more bytes than there were.
pub proof fn lemma_read_values_consume(wire: u64, bytes: Seq<u8>)
    ensures
        read_int32(wire, bytes) matches Some((_, rest)) ==> rest.len() <= bytes.len(),
        read_bytes(wire, bytes) matches Some((_, rest)) ==> rest.len() <= bytes.len(),
        read_string(wire, bytes) matches Some((_, rest)) ==> rest.len() <= bytes.len(),
{
    lemma_read_groups_consumes(bytes, max_varint_len());
}

/// How many integers `groups` groups of seven bits can tell apart.
spec fn span(groups: nat) -> nat
    decreases groups,
{
    if groups == 0 {
        1
    } else {
        0x80 * span((groups - 1) as nat)
    }
}

/// Passing over a field never gives back more bytes than there were.
pub proof fn lemma_behind_field_consumes(wire: u64, tag: u32, bytes: Seq<u8>, depth: nat)
    ensures
        behind_field(wire, tag, bytes, depth) matches Some(rest) ==> rest.len() <= bytes.len(),
    decreases depth, bytes.len(), 1nat,
{
    lemma_read_groups_consumes(bytes, max_varint_len());
    if depth > 0 && wire == START_GROUP {
        lemma_behind_group_consumes(tag, bytes, depth);
    }
}

/// Passing over a group consumes at least its end.
pub proof fn lemma_behind_group_consumes(tag: u32, bytes: Seq<u8>, depth: nat)
    ensures
        behind_group(tag, bytes, depth) matches Some(rest) ==> rest.len() < bytes.len(),
    decreases depth, bytes.len(), 0nat,
{
    lemma_read_key_consumes(bytes);
    if let Some((inner, wire, value)) = read_key(bytes) {
        if depth > 0 && wire != END_GROUP {
            if let Some(rest) = behind_field(wire, inner, value, (depth - 1) as nat) {
                if rest.len() < bytes.len() {
                    lemma_behind_group_consumes(tag, rest, depth);
                }
            }
        }
    }
}

proof fn lemma_read_groups_back(value: nat, rest: Seq<u8>, limit: nat)
    requires
        limit > 0,
        value < span(limit),
    ensures
        read_groups(varint(value) + rest, limit) == Some((value, rest)),
    decreases limit,
{
    let bytes = varint(value) + rest;
    if value < 0x80 {
        assert(bytes.skip(1) =~= rest);
    } else {
        let high = value / 0x80;
        let less = (limit - 1) as nat;
        assert(high < span(less));
        assert(less > 0) by {
            reveal_with_fuel(span, 2);
        }
        lemma_read_groups_back(high, rest, less);
        assert(bytes[0] == (value % 0x80 + 0x80) as u8);
        assert(bytes.skip(1) =~= varint(high) + rest);
    }
}

/// An integer of 64 bits is read back as it was written.
pub proof fn lemma_read_varint_back(value: nat, rest: Seq<u8>)
    requires
        value <= u64::MAX,
    ensures
        read_varint(varint(value) + rest) == Some((value, rest)),
{
    assert(value < span(max_varint_len())) by {
        reveal_with_fuel(span, 11);
    }
    lemma_read_groups_back(value, rest, max_varint_len());
}

/// A key is read back as it was written.
pub proof fn lemma_read_key_back(tag: u32, wire: u64, rest: Seq<u8>)
    requires
        1 <= tag <= MAX_TAG,
        wire <= 5,
    ensures
        read_key(key(tag, wire) + rest) == Some((tag, wire, rest)),
{
    let value = (tag * 8 + wire) as nat;
    lemma_read_varint_back(value, rest);
    assert(value / 8 == tag && value % 8 == wire);
}

/// Delimited bytes are read back as they were written.
pub proof fn lemma_read_delimited_back(bytes: Seq<u8>, rest: Seq<u8>)
    requires
        bytes.len() <= u64::MAX,
    ensures
        read_delimited(delimited(bytes) + rest) == Some((bytes, rest)),
{
    assert(delimited(bytes) + rest =~= varint(bytes.len()) + (bytes + rest));
    lemma_read_varint_back(bytes.len(), bytes + rest);
    assert((bytes + rest).take(bytes.len() as int) =~= bytes);
    assert((bytes + rest).skip(bytes.len() as int) =~= rest);
}

/// An integer field is read back as it was written.
pub proof fn lemma_read_int32_back(tag: u32, value: i32, rest: Seq<u8>)
    requires
        1 <= tag <= MAX_TAG,
    ensures
        read_key(int32_field(tag, value) + rest) == Some(
            (tag, VARINT, varint(unsigned(value)) + rest),
        ),
        read_int32(VARINT, varint(unsigned(value)) + rest) == Some((value, rest)),
{
    assert(int32_field(tag, value) + rest =~= key(tag, VARINT) + (varint(unsigned(value))
        + rest));
    lemma_read_key_back(tag, VARINT, varint(unsigned(value)) + rest);
    lemma_read_varint_back(unsigned(value), rest);
    assert(signed(unsigned(value)) == value);
}

/// A byte-string field is read back as it was written.
pub proof fn lemma_read_bytes_back(tag: u32, value: Seq<u8>, rest: Seq<u8>)
    requires
        1 <= tag <= MAX_TAG,
        value.len() <= u64::MAX,
    ensures
        read_key(bytes_field(tag, value) + rest) == Some(
            (tag, LENGTH_DELIMITED, delimited(value) + rest),
        ),
        read_bytes(LENGTH_DELIMITED, delimited(value) + rest) == Some((value, rest)),
{
    assert(bytes_field(tag, value) + rest =~= key(tag, LENGTH_DELIMITED) + (delimited(value)
        + rest));
    lemma_read_key_back(tag, LENGTH_DELIMITED, delimited(value) + rest);
    lemma_read_delimited_back(value, rest);
}

/// A string field is read back as it was written.
pub proof fn lemma_read_string_back(tag: u32, value: Text, rest: Seq<u8>)
    requires
        1 <= tag <= MAX_TAG,
        encode_utf8(value).len() <= u64::MAX,
    ensures
        read_key(string_field(tag, value) + rest) == Some(
            (tag, LENGTH_DELIMITED, delimited(encode_utf8(value)) + rest),
        ),
        read_string(LENGTH_DELIMITED, delimited(encode_utf8(value)) + rest) == Some(
            (value, rest),
        ),
{
    lemma_read_bytes_back(tag, encode_utf8(value), rest);
    encode_utf8_valid_utf8(value);
    encode_utf8_decode_utf8(value);
}

} // verus!
