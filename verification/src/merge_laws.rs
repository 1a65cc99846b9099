//! What is read from bytes that no single message was encoded to: several messages
//! one behind the other, fields that are not known, and fields that are broken.

use vstd::prelude::*;
use vstd::utf8::{encode_utf8, valid_utf8};
use crate::codec::{
    decode, encode, encode_aliases, encode_state, encode_store, encode_text, encode_texts,
    message_field, no_message, no_state, no_store, read_fields, state_field, store_field,
};
use crate::codec_laws::{lemma_aliases_back, lemma_read_bytes_field, lemma_texts_back};
use crate::protocol::{ControlMessageView, NetworkStateView, StoreMessageView};
use crate::text::Text;
use crate::wire::{
    behind_field, behind_group, bytes_field, int32_field, key, unsigned, varint, END_GROUP,
    LENGTH_DELIMITED, MAX_DEPTH, MAX_TAG, START_GROUP, VARINT,
};
use crate::wire_laws::{
    lemma_read_bytes_back, lemma_read_delimited_back, lemma_read_int32_back, lemma_read_key_back,
    lemma_read_key_consumes, lemma_read_string_back, lemma_read_varint_back,
};

verus! {

/// `second` where it holds something, and `first` otherwise.
spec fn later(first: Text, second: Text) -> Text {
    if second.len() > 0 {
        second
    } else {
        first
    }
}

/// Content that was read behind other content.
spec fn later_store(first: StoreMessageView, second: StoreMessageView) -> StoreMessageView {
    StoreMessageView {
        receiver: if second.receiver is Some {
            second.receiver
        } else {
            first.receiver
        },
        data: later(first.data, second.data),
    }
}

/// A state that was read behind another one.
spec fn later_state(first: NetworkStateView, second: NetworkStateView) -> NetworkStateView {
    NetworkStateView {
        whitelisted: first.whitelisted + second.whitelisted,
        connected: first.connected + second.connected,
        whitelisted_sender: first.whitelisted_sender + second.whitelisted_sender,
        aliases: first.aliases + second.aliases,
    }
}

proof fn lemma_store_onto(first: StoreMessageView, second: StoreMessageView, rest: Seq<u8>)
    requires
        encode_store(second).len() <= u64::MAX,
    ensures
        read_fields(first, encode_store(second) + rest, store_field()) == read_fields(
            later_store(first, second),
            rest,
            store_field(),
        ),
{
    let tail = encode_text(2, second.data) + rest;
    let half = StoreMessageView { data: first.data, ..later_store(first, second) };
    match second.receiver {
        Some(receiver) => {
            lemma_read_string_back(1, receiver, tail);
            lemma_read_bytes_field(first, half, 1, encode_utf8(receiver), tail, store_field());
            assert(encode_store(second) + rest =~= bytes_field(1, encode_utf8(receiver)) + tail);
        },
        None => {
            assert(encode_store(second) + rest =~= tail);
            assert(half =~= first);
        },
    }
    if second.data.len() > 0 {
        lemma_read_string_back(2, second.data, rest);
        lemma_read_bytes_field(
            half,
            later_store(first, second),
            2,
            encode_utf8(second.data),
            rest,
            store_field(),
        );
    } else {
        assert(tail =~= rest);
    }
}

proof fn lemma_state_onto(first: NetworkStateView, second: NetworkStateView, rest: Seq<u8>)
    requires
        encode_state(second).len() <= u64::MAX,
    ensures
        read_fields(first, encode_state(second) + rest, state_field()) == read_fields(
            later_state(first, second),
            rest,
            state_field(),
        ),
{
    let tail_4 = encode_aliases(4, second.aliases) + rest;
    let tail_3 = encode_texts(3, second.whitelisted_sender) + tail_4;
    let tail_2 = encode_texts(2, second.connected) + tail_3;
    assert(encode_state(second) + rest =~= encode_texts(1, second.whitelisted) + tail_2);
    let one = NetworkStateView { whitelisted: first.whitelisted + second.whitelisted, ..first };
    let two = NetworkStateView { connected: first.connected + second.connected, ..one };
    let three = NetworkStateView {
        whitelisted_sender: first.whitelisted_sender + second.whitelisted_sender,
        ..two
    };
    lemma_texts_back(first, 1, second.whitelisted, tail_2);
    lemma_texts_back(one, 2, second.connected, tail_3);
    lemma_texts_back(two, 3, second.whitelisted_sender, tail_4);
    lemma_aliases_back(three, second.aliases, rest);
}

/// A message that was read behind another one.
spec fn later_message(first: ControlMessageView, second: ControlMessageView) -> ControlMessageView {
    ControlMessageView {
        message_type: if second.message_type != 0 {
            second.message_type
        } else {
            first.message_type
        },
        state: match (first.state, second.state) {
            (Some(one), Some(two)) => Some(later_state(one, two)),
            (one, None) => one,
            (None, two) => two,
        },
        message: match (first.message, second.message) {
            (Some(one), Some(two)) => Some(later_store(one, two)),
            (one, None) => one,
            (None, two) => two,
        },
        payload: later(first.payload, second.payload),
    }
}

/// What is read from `bytes` onto a message.
#[verifier::opaque]
spec fn read_onto(msg: ControlMessageView, bytes: Seq<u8>) -> Option<ControlMessageView> {
    read_fields(msg, bytes, message_field())
}

/// The bytes of the type in the encoding of a message.
#[verifier::opaque]
spec fn type_part(msg: ControlMessageView) -> Seq<u8> {
    if msg.message_type == 0 {
        seq![]
    } else {
        int32_field(1, msg.message_type)
    }
}

/// The bytes of the state in the encoding of a message.
#[verifier::opaque]
spec fn state_part(msg: ControlMessageView) -> Seq<u8> {
    match msg.state {
        Some(state) => bytes_field(2, encode_state(state)),
        None => seq![],
    }
}

/// The bytes of the content in the encoding of a message.
#[verifier::opaque]
spec fn store_part(msg: ControlMessageView) -> Seq<u8> {
    match msg.message {
        Some(store) => bytes_field(3, encode_store(store)),
        None => seq![],
    }
}

/// The bytes of the payload in the encoding of a message.
#[verifier::opaque]
spec fn payload_part(msg: ControlMessageView) -> Seq<u8> {
    encode_text(4, msg.payload)
}

proof fn lemma_parts(msg: ControlMessageView)
    ensures
        encode(msg) == type_part(msg) + state_part(msg) + store_part(msg) + payload_part(msg),
{
    reveal(type_part);
    reveal(state_part);
    reveal(store_part);
    reveal(payload_part);
}

proof fn lemma_type_onto(first: ControlMessageView, second: ControlMessageView, rest: Seq<u8>)
    ensures
        read_onto(first, type_part(second) + rest) == read_onto(
            ControlMessageView {
                message_type: later_message(first, second).message_type,
                ..first
            },
            rest,
        ),
{
    reveal(read_onto);
    reveal(type_part);
    if second.message_type == 0 {
        assert(Seq::<u8>::empty() + rest =~= rest);
    } else {
        lemma_read_int32_back(1, second.message_type, rest);
        lemma_read_key_consumes(int32_field(1, second.message_type) + rest);
    }
}

proof fn lemma_state_part_onto(first: ControlMessageView, second: ControlMessageView, rest: Seq<u8>)
    requires
        state_part(second).len() <= u64::MAX,
    ensures
        read_onto(first, state_part(second) + rest) == read_onto(
            ControlMessageView { state: later_message(first, second).state, ..first },
            rest,
        ),
{
    reveal(read_onto);
    reveal(state_part);
    match second.state {
        Some(s) => {
            let start = first.state.unwrap_or(no_state());
            lemma_state_onto(start, s, Seq::empty());
            assert(encode_state(s) + Seq::<u8>::empty() =~= encode_state(s));
            assert(later_state(no_state(), s) =~= s);
            lemma_read_bytes_back(2, encode_state(s), rest);
            lemma_read_bytes_field(
                first,
                ControlMessageView { state: later_message(first, second).state, ..first },
                2,
                encode_state(s),
                rest,
                message_field(),
            );
        },
        None => {
            assert(Seq::<u8>::empty() + rest =~= rest);
        },
    }
}

proof fn lemma_store_part_onto(first: ControlMessageView, second: ControlMessageView, rest: Seq<u8>)
    requires
        store_part(second).len() <= u64::MAX,
    ensures
        read_onto(first, store_part(second) + rest) == read_onto(
            ControlMessageView { message: later_message(first, second).message, ..first },
            rest,
        ),
{
    reveal(read_onto);
    reveal(store_part);
    match second.message {
        Some(m) => {
            let start = first.message.unwrap_or(no_store());
            lemma_store_onto(start, m, Seq::empty());
            assert(encode_store(m) + Seq::<u8>::empty() =~= encode_store(m));
            assert(later_store(no_store(), m) =~= m);
            lemma_read_bytes_back(3, encode_store(m), rest);
            lemma_read_bytes_field(
                first,
                ControlMessageView { message: later_message(first, second).message, ..first },
                3,
                encode_store(m),
                rest,
                message_field(),
            );
        },
        None => {
            assert(Seq::<u8>::empty() + rest =~= rest);
        },
    }
}

proof fn lemma_payload_onto(first: ControlMessageView, second: ControlMessageView, rest: Seq<u8>)
    requires
        payload_part(second).len() <= u64::MAX,
    ensures
        read_onto(first, payload_part(second) + rest) == read_onto(
            ControlMessageView { payload: later_message(first, second).payload, ..first },
            rest,
        ),
{
    reveal(read_onto);
    reveal(payload_part);
    if second.payload.len() > 0 {
        lemma_read_string_back(4, second.payload, rest);
        lemma_read_bytes_field(
            first,
            ControlMessageView { payload: second.payload, ..first },
            4,
            encode_utf8(second.payload),
            rest,
            message_field(),
        );
    } else {
        assert(payload_part(second) + rest =~= rest);
    }
}

proof fn lemma_message_onto(first: ControlMessageView, second: ControlMessageView, rest: Seq<u8>)
    requires
        encode(second).len() <= u64::MAX,
    ensures
        read_fields(first, encode(second) + rest, message_field()) == read_fields(
            later_message(first, second),
            rest,
            message_field(),
        ),
{
    lemma_parts(second);
    lemma_parts_onto(first, second, encode(second), rest);
    reveal(read_onto);
}

proof fn lemma_parts_onto(
    first: ControlMessageView,
    second: ControlMessageView,
    bytes: Seq<u8>,
    rest: Seq<u8>,
)
    requires
        bytes == type_part(second) + state_part(second) + store_part(second) + payload_part(second),
        bytes.len() <= u64::MAX,
    ensures
        read_onto(first, bytes + rest) == read_onto(later_message(first, second), rest),
{
    let whole = later_message(first, second);
    let tail_4 = payload_part(second) + rest;
    let tail_3 = store_part(second) + tail_4;
    let tail_2 = state_part(second) + tail_3;
    assert(bytes + rest =~= type_part(second) + tail_2);
    let one = ControlMessageView { message_type: whole.message_type, ..first };
    let two = ControlMessageView { state: whole.state, ..one };
    let three = ControlMessageView { message: whole.message, ..two };
    lemma_type_onto(first, second, tail_2);
    lemma_state_part_onto(one, second, tail_3);
    lemma_store_part_onto(two, second, tail_4);
    lemma_payload_onto(three, second, rest);
}

proof fn lemma_first_read(msg: ControlMessageView, rest: Seq<u8>)
    requires
        encode(msg).len() <= u64::MAX,
    ensures
        decode(encode(msg) + rest) == read_fields(msg, rest, message_field()),
{
    lemma_message_onto(no_message(), msg, rest);
    let whole = later_message(no_message(), msg);
    assert(msg.payload.len() == 0 ==> msg.payload =~= Seq::empty());
    assert(whole == msg);
}

/// The bytes of two messages, one behind the other, are read as one message. What
/// the second gives takes the place of what the first gives, and the lists of
/// their states are put behind each other.
pub proof fn law_decode_joined(first: ControlMessageView, second: ControlMessageView)
    requires
        encode(first).len() <= u64::MAX,
        encode(second).len() <= u64::MAX,
    ensures
        decode(encode(first) + encode(second)) matches Some(msg) && {
            &&& msg.message_type == if second.message_type != 0 {
                second.message_type
            } else {
                first.message_type
            }
            &&& msg.payload == if second.payload.len() > 0 {
                second.payload
            } else {
                first.payload
            }
            &&& second.state is None ==> msg.state == first.state
            &&& first.state is None ==> msg.state == second.state
            &&& first.state is Some && second.state is Some ==> msg.state == Some(
                NetworkStateView {
                    whitelisted: first.state->0.whitelisted + second.state->0.whitelisted,
                    connected: first.state->0.connected + second.state->0.connected,
                    whitelisted_sender: first.state->0.whitelisted_sender
                        + second.state->0.whitelisted_sender,
                    aliases: first.state->0.aliases + second.state->0.aliases,
                },
            )
            &&& second.message is None ==> msg.message == first.message
            &&& first.message is None ==> msg.message == second.message
            &&& first.message is Some && second.message is Some ==> msg.message == Some(
                StoreMessageView {
                    receiver: if second.message->0.receiver is Some {
                        second.message->0.receiver
                    } else {
                        first.message->0.receiver
                    },
                    data: if second.message->0.data.len() > 0 {
                        second.message->0.data
                    } else {
                        first.message->0.data
                    },
                },
            )
        },
{
    lemma_first_read(first, encode(second));
    lemma_message_onto(first, second, Seq::empty());
    assert(encode(second) + Seq::<u8>::empty() =~= encode(second));
}

/// Fields that a message does not know make no difference, whatever they hold and
/// whatever follows them.
pub proof fn law_unknown_fields_ignored(
    msg: ControlMessageView,
    tag: u32,
    value: Seq<u8>,
    number: i32,
    rest: Seq<u8>,
)
    requires
        encode(msg).len() <= u64::MAX,
        4 < tag <= MAX_TAG,
        value.len() <= u64::MAX,
    ensures
        decode(encode(msg) + (bytes_field(tag, value) + rest)) == decode(encode(msg) + rest),
        decode(encode(msg) + (int32_field(tag, number) + rest)) == decode(encode(msg) + rest),
{
    lemma_first_read(msg, rest);
    lemma_first_read(msg, bytes_field(tag, value) + rest);
    lemma_first_read(msg, int32_field(tag, number) + rest);
    lemma_read_delimited_back(value, rest);
    lemma_read_bytes_field(msg, msg, tag, value, rest, message_field());
    lemma_read_int32_back(tag, number, rest);
    lemma_read_varint_back(unsigned(number), rest);
    lemma_read_key_consumes(int32_field(tag, number) + rest);
}

/// Fields of a fixed size that a message does not know make no difference.
pub proof fn law_unknown_fixed_fields_ignored(
    msg: ControlMessageView,
    tag: u32,
    value: Seq<u8>,
    rest: Seq<u8>,
)
    requires
        encode(msg).len() <= u64::MAX,
        4 < tag <= MAX_TAG,
    ensures
        value.len() == 8 ==> decode(encode(msg) + (key(tag, 1) + (value + rest))) == decode(
            encode(msg) + rest,
        ),
        value.len() == 4 ==> decode(encode(msg) + (key(tag, 5) + (value + rest))) == decode(
            encode(msg) + rest,
        ),
{
    lemma_first_read(msg, rest);
    lemma_first_read(msg, key(tag, 1) + (value + rest));
    lemma_first_read(msg, key(tag, 5) + (value + rest));
    lemma_read_key_back(tag, 1, value + rest);
    lemma_read_key_back(tag, 5, value + rest);
    lemma_read_key_consumes(key(tag, 1) + (value + rest));
    lemma_read_key_consumes(key(tag, 5) + (value + rest));
    assert((value + rest).skip(value.len() as int) =~= rest);
}

/// So many groups, one in the other, and nothing else.
pub open spec fn nested_groups(tag: u32, levels: nat) -> Seq<u8>
    decreases levels,
{
    if levels == 0 {
        seq![]
    } else {
        key(tag, START_GROUP) + (nested_groups(tag, (levels - 1) as nat) + key(tag, END_GROUP))
    }
}

proof fn lemma_behind_nested(tag: u32, levels: nat, depth: nat, rest: Seq<u8>)
    requires
        1 <= tag <= MAX_TAG,
    ensures
        behind_group(tag, nested_groups(tag, levels) + (key(tag, END_GROUP) + rest), depth)
            == if levels < depth {
            Some(rest)
        } else {
            None
        },
    decreases levels,
{
    let close = key(tag, END_GROUP);
    let end = close + rest;
    lemma_read_key_back(tag, END_GROUP, rest);
    lemma_read_key_consumes(end);
    let bytes = nested_groups(tag, levels) + end;
    if levels == 0 {
        assert(bytes =~= end);
    } else {
        let less = (levels - 1) as nat;
        let inner = nested_groups(tag, less) + (close + end);
        assert(bytes =~= key(tag, START_GROUP) + inner);
        lemma_read_key_back(tag, START_GROUP, inner);
        if depth > 1 {
            lemma_behind_nested(tag, less, (depth - 1) as nat, end);
            lemma_behind_nested(tag, 0, depth, rest);
            assert(nested_groups(tag, 0) + end =~= end);
            assert(bytes.len() > end.len());
        }
        reveal_with_fuel(behind_field, 2);
        reveal_with_fuel(behind_group, 2);
    }
}

/// Groups that a message does not know make no difference while they are nested
/// at most a hundred levels deep; deeper ones are refused.
pub proof fn law_unknown_groups(msg: ControlMessageView, tag: u32, levels: nat, rest: Seq<u8>)
    requires
        encode(msg).len() <= u64::MAX,
        4 < tag <= MAX_TAG,
        levels > 0,
    ensures
        decode(encode(msg) + (nested_groups(tag, levels) + rest)) == if levels <= 100 {
            decode(encode(msg) + rest)
        } else {
            None
        },
{
    let less = (levels - 1) as nat;
    let inner = nested_groups(tag, less) + (key(tag, END_GROUP) + rest);
    let bytes = nested_groups(tag, levels) + rest;
    assert(bytes =~= key(tag, START_GROUP) + inner);
    lemma_first_read(msg, rest);
    lemma_first_read(msg, bytes);
    lemma_read_key_back(tag, START_GROUP, inner);
    lemma_read_key_consumes(bytes);
    lemma_behind_nested(tag, less, MAX_DEPTH as nat, rest);
    assert(inner.len() >= rest.len());
}

/// A group that ends with another number than it began with, and an end without a
/// beginning, are refused.
pub proof fn law_wrong_end_refused(msg: ControlMessageView, tag: u32, other: u32, rest: Seq<u8>)
    requires
        encode(msg).len() <= u64::MAX,
        4 < tag <= MAX_TAG,
        1 <= other <= MAX_TAG,
        other != tag,
    ensures
        decode(encode(msg) + (key(tag, START_GROUP) + (key(other, END_GROUP) + rest))) is None,
        decode(encode(msg) + (key(tag, END_GROUP) + rest)) is None,
{
    let inner = key(other, END_GROUP) + rest;
    lemma_first_read(msg, key(tag, START_GROUP) + inner);
    lemma_first_read(msg, key(tag, END_GROUP) + rest);
    lemma_read_key_back(tag, START_GROUP, inner);
    lemma_read_key_back(other, END_GROUP, rest);
    lemma_read_key_back(tag, END_GROUP, rest);
}

/// Fields that the parts of a message do not know make no difference either.
pub proof fn law_unknown_part_fields_ignored(
    msg: ControlMessageView,
    state: NetworkStateView,
    store: StoreMessageView,
    tag: u32,
    value: Seq<u8>,
    rest: Seq<u8>,
)
    requires
        encode(msg).len() <= u64::MAX,
        4 < tag <= MAX_TAG,
        value.len() <= u64::MAX,
        (encode_state(state) + bytes_field(tag, value)).len() <= u64::MAX,
        (encode_store(store) + bytes_field(tag, value)).len() <= u64::MAX,
    ensures
        decode(encode(msg) + (bytes_field(2, encode_state(state) + bytes_field(tag, value)) + rest))
            == decode(encode(msg) + (bytes_field(2, encode_state(state)) + rest)),
        decode(encode(msg) + (bytes_field(3, encode_store(store) + bytes_field(tag, value)) + rest))
            == decode(encode(msg) + (bytes_field(3, encode_store(store)) + rest)),
{
    let end = Seq::<u8>::empty();
    let extra = bytes_field(tag, value);
    let long_state = encode_state(state) + extra;
    let long_store = encode_store(store) + extra;
    assert(extra + end =~= extra);
    assert(encode_state(state) + end =~= encode_state(state));
    assert(encode_store(store) + end =~= encode_store(store));
    lemma_read_delimited_back(value, end);
    let old_state = msg.state.unwrap_or(no_state());
    let new_state = later_state(old_state, state);
    lemma_state_onto(old_state, state, extra);
    lemma_state_onto(old_state, state, end);
    lemma_read_bytes_field(new_state, new_state, tag, value, end, state_field());
    let old_store = msg.message.unwrap_or(no_store());
    let new_store = later_store(old_store, store);
    lemma_store_onto(old_store, store, extra);
    lemma_store_onto(old_store, store, end);
    lemma_read_bytes_field(new_store, new_store, tag, value, end, store_field());
    let with_state = ControlMessageView { state: Some(new_state), ..msg };
    let with_store = ControlMessageView { message: Some(new_store), ..msg };
    lemma_first_read(msg, bytes_field(2, long_state) + rest);
    lemma_first_read(msg, bytes_field(2, encode_state(state)) + rest);
    lemma_read_bytes_back(2, long_state, rest);
    lemma_read_bytes_back(2, encode_state(state), rest);
    lemma_read_bytes_field(msg, with_state, 2, long_state, rest, message_field());
    lemma_read_bytes_field(msg, with_state, 2, encode_state(state), rest, message_field());
    lemma_first_read(msg, bytes_field(3, long_store) + rest);
    lemma_first_read(msg, bytes_field(3, encode_store(store)) + rest);
    lemma_read_bytes_back(3, long_store, rest);
    lemma_read_bytes_back(3, encode_store(store), rest);
    lemma_read_bytes_field(msg, with_store, 3, long_store, rest, message_field());
    lemma_read_bytes_field(msg, with_store, 3, encode_store(store), rest, message_field());
}

/// Bytes in which a known field has the form of another kind of value are read as
/// no message, whatever comes before and after.
pub proof fn law_wrong_form_refused(msg: ControlMessageView, tag: u32, wire: u64, rest: Seq<u8>)
    requires
        encode(msg).len() <= u64::MAX,
        1 <= tag <= 4,
        wire <= 5,
        wire != if tag == 1 {
            VARINT
        } else {
            LENGTH_DELIMITED
        },
    ensures
        decode(encode(msg) + (key(tag, wire) + rest)) is None,
{
    lemma_first_read(msg, key(tag, wire) + rest);
    lemma_read_key_back(tag, wire, rest);
}

/// Bytes that end before the value of a field does are read as no message.
pub proof fn law_cut_short_refused(msg: ControlMessageView, tag: u32, len: nat, rest: Seq<u8>)
    requires
        encode(msg).len() <= u64::MAX,
        1 < tag <= MAX_TAG,
        rest.len() < len <= u64::MAX,
    ensures
        decode(encode(msg) + (key(tag, LENGTH_DELIMITED) + (varint(len) + rest))) is None,
{
    let bytes = key(tag, LENGTH_DELIMITED) + (varint(len) + rest);
    lemma_first_read(msg, bytes);
    lemma_read_key_back(tag, LENGTH_DELIMITED, varint(len) + rest);
    lemma_read_varint_back(len, rest);
}

/// Bytes in which the payload is no text are read as no message.
pub proof fn law_no_text_refused(msg: ControlMessageView, value: Seq<u8>, rest: Seq<u8>)
    requires
        encode(msg).len() <= u64::MAX,
        value.len() <= u64::MAX,
        !valid_utf8(value),
    ensures
        decode(encode(msg) + (bytes_field(4, value) + rest)) is None,
{
    lemma_first_read(msg, bytes_field(4, value) + rest);
    lemma_read_bytes_back(4, value, rest);
}

} // verus!
