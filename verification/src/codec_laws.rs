//! A message that was encoded is decoded to what it was.

use vstd::prelude::*;
use vstd::utf8::encode_utf8;
use crate::codec::{
    alias_field, decode, encode, encode_alias, encode_aliases, encode_state, encode_store,
    encode_text, encode_texts, message_field, no_alias, no_message, no_state, no_store,
    read_fields, state_field, store_field, ReadField,
};
use crate::protocol::{AliasView, ControlMessageView, NetworkStateView, StoreMessageView};
use crate::text::Text;
use crate::wire::{bytes_field, delimited, int32_field, string_field, LENGTH_DELIMITED, MAX_TAG};
use crate::wire_laws::{
    lemma_read_bytes_back, lemma_read_int32_back, lemma_read_key_consumes, lemma_read_string_back,
};

verus! {

/// Reading a field that was written, and then the rest.
pub(crate) proof fn lemma_read_bytes_field<M>(
    msg: M,
    next: M,
    tag: u32,
    value: Seq<u8>,
    rest: Seq<u8>,
    field: ReadField<M>,
)
    requires
        1 <= tag <= MAX_TAG,
        value.len() <= u64::MAX,
        field(msg, tag, LENGTH_DELIMITED, delimited(value) + rest) == Some((next, rest)),
    ensures
        read_fields(msg, bytes_field(tag, value) + rest, field) == read_fields(next, rest, field),
{
    lemma_read_bytes_back(tag, value, rest);
    let bytes = bytes_field(tag, value) + rest;
    lemma_read_key_consumes(bytes);
    assert((delimited(value) + rest).len() >= rest.len());
}

/// An alias entry is read back as it was written.
pub proof fn lemma_alias_back(alias: AliasView)
    requires
        encode_alias(alias).len() <= u64::MAX,
    ensures
        read_fields(no_alias(), encode_alias(alias), alias_field()) == Some(alias),
{
    let first = AliasView { peer: alias.peer, alias: Seq::empty() };
    let tail = encode_text(2, alias.alias);
    if alias.peer.len() > 0 {
        lemma_read_string_back(1, alias.peer, tail);
        lemma_read_bytes_field(
            no_alias(),
            first,
            1,
            encode_utf8(alias.peer),
            tail,
            alias_field(),
        );
    } else {
        assert(alias.peer =~= Seq::empty());
        assert(encode_alias(alias) =~= tail);
    }
    assert(read_fields(no_alias(), encode_alias(alias), alias_field()) == read_fields(
        first,
        tail,
        alias_field(),
    ));
    if alias.alias.len() > 0 {
        lemma_read_string_back(2, alias.alias, Seq::empty());
        lemma_read_bytes_field(
            first,
            alias,
            2,
            encode_utf8(alias.alias),
            Seq::empty(),
            alias_field(),
        );
        assert(tail + Seq::<u8>::empty() =~= tail);
    } else {
        assert(alias.alias =~= Seq::empty());
        assert(first =~= alias);
    }
}

/// Content to be kept is read back as it was written.
pub proof fn lemma_store_back(store: StoreMessageView)
    requires
        encode_store(store).len() <= u64::MAX,
    ensures
        read_fields(no_store(), encode_store(store), store_field()) == Some(store),
{
    let first = StoreMessageView { receiver: store.receiver, data: Seq::empty() };
    let tail = encode_text(2, store.data);
    match store.receiver {
        Some(receiver) => {
            lemma_read_string_back(1, receiver, tail);
            lemma_read_bytes_field(
                no_store(),
                first,
                1,
                encode_utf8(receiver),
                tail,
                store_field(),
            );
        },
        None => {
            assert(encode_store(store) =~= tail);
        },
    }
    assert(read_fields(no_store(), encode_store(store), store_field()) == read_fields(
        first,
        tail,
        store_field(),
    ));
    if store.data.len() > 0 {
        lemma_read_string_back(2, store.data, Seq::empty());
        lemma_read_bytes_field(
            first,
            store,
            2,
            encode_utf8(store.data),
            Seq::empty(),
            store_field(),
        );
        assert(tail + Seq::<u8>::empty() =~= tail);
    } else {
        assert(store.data =~= Seq::empty());
        assert(first =~= store);
    }
}

/// `state` with `list` at the end of the list that field `tag` holds.
pub(crate) open spec fn grown(state: NetworkStateView, tag: u32, list: Seq<Text>) -> NetworkStateView {
    if tag == 1 {
        NetworkStateView { whitelisted: state.whitelisted + list, ..state }
    } else if tag == 2 {
        NetworkStateView { connected: state.connected + list, ..state }
    } else {
        NetworkStateView { whitelisted_sender: state.whitelisted_sender + list, ..state }
    }
}

pub(crate) proof fn lemma_texts_back(state: NetworkStateView, tag: u32, list: Seq<Text>, rest: Seq<u8>)
    requires
        1 <= tag <= 3,
        encode_texts(tag, list).len() <= u64::MAX,
    ensures
        read_fields(state, encode_texts(tag, list) + rest, state_field()) == read_fields(
            grown(state, tag, list),
            rest,
            state_field(),
        ),
    decreases list.len(),
{
    if list.len() == 0 {
        assert(encode_texts(tag, list) + rest =~= rest);
        assert(grown(state, tag, list) =~= state);
    } else {
        let start = list.drop_last();
        let last = list.last();
        let tail = string_field(tag, last) + rest;
        assert(encode_texts(tag, list) + rest =~= encode_texts(tag, start) + tail);
        lemma_texts_back(state, tag, start, tail);
        lemma_read_string_back(tag, last, rest);
        assert(grown(state, tag, list) =~= grown(grown(state, tag, start), tag, seq![last])) by {
            assert(start + seq![last] =~= list);
        }
        assert(start.push(last) =~= list);
        lemma_read_bytes_field(
            grown(state, tag, start),
            grown(state, tag, list),
            tag,
            encode_utf8(last),
            rest,
            state_field(),
        );
    }
}

pub(crate) proof fn lemma_aliases_back(state: NetworkStateView, list: Seq<AliasView>, rest: Seq<u8>)
    requires
        encode_aliases(4, list).len() <= u64::MAX,
    ensures
        read_fields(state, encode_aliases(4, list) + rest, state_field()) == read_fields(
            NetworkStateView { aliases: state.aliases + list, ..state },
            rest,
            state_field(),
        ),
    decreases list.len(),
{
    let whole = NetworkStateView { aliases: state.aliases + list, ..state };
    if list.len() == 0 {
        assert(encode_aliases(4, list) + rest =~= rest);
        assert(whole =~= state);
    } else {
        let start = list.drop_last();
        let last = list.last();
        let tail = bytes_field(4, encode_alias(last)) + rest;
        let part = NetworkStateView { aliases: state.aliases + start, ..state };
        assert(encode_aliases(4, list) + rest =~= encode_aliases(4, start) + tail);
        lemma_aliases_back(state, start, tail);
        lemma_alias_back(last);
        lemma_read_bytes_back(4, encode_alias(last), rest);
        assert(part.aliases.push(last) =~= whole.aliases);
        lemma_read_bytes_field(part, whole, 4, encode_alias(last), rest, state_field());
    }
}

/// The state of the network is read back as it was written.
pub proof fn lemma_state_back(state: NetworkStateView)
    requires
        encode_state(state).len() <= u64::MAX,
    ensures
        read_fields(no_state(), encode_state(state), state_field()) == Some(state),
{
    let end = Seq::<u8>::empty();
    let fourth = encode_aliases(4, state.aliases) + end;
    let third = encode_texts(3, state.whitelisted_sender) + fourth;
    let second = encode_texts(2, state.connected) + third;
    assert(encode_state(state) =~= encode_texts(1, state.whitelisted) + second);
    let one = grown(no_state(), 1, state.whitelisted);
    let two = grown(one, 2, state.connected);
    let three = grown(two, 3, state.whitelisted_sender);
    lemma_texts_back(no_state(), 1, state.whitelisted, second);
    lemma_texts_back(one, 2, state.connected, third);
    lemma_texts_back(two, 3, state.whitelisted_sender, fourth);
    lemma_aliases_back(three, state.aliases, end);
    assert(NetworkStateView { aliases: three.aliases + state.aliases, ..three } =~= state);
}

proof fn lemma_type_back(number: i32, rest: Seq<u8>)
    ensures
        read_fields(
            no_message(),
            (if number == 0 {
                seq![]
            } else {
                int32_field(1, number)
            }) + rest,
            message_field(),
        ) == read_fields(
            ControlMessageView { message_type: number, ..no_message() },
            rest,
            message_field(),
        ),
{
    if number == 0 {
        assert(Seq::<u8>::empty() + rest =~= rest);
    } else {
        lemma_read_int32_back(1, number, rest);
        lemma_read_key_consumes(int32_field(1, number) + rest);
    }
}

proof fn lemma_state_part_back(
    msg: ControlMessageView,
    state: Option<NetworkStateView>,
    rest: Seq<u8>,
)
    requires
        msg.state is None,
        state matches Some(s) ==> encode_state(s).len() <= u64::MAX,
    ensures
        read_fields(
            msg,
            (match state {
                Some(s) => bytes_field(2, encode_state(s)),
                None => seq![],
            }) + rest,
            message_field(),
        ) == read_fields(ControlMessageView { state, ..msg }, rest, message_field()),
{
    match state {
        Some(s) => {
            lemma_state_back(s);
            lemma_read_bytes_back(2, encode_state(s), rest);
            lemma_read_bytes_field(
                msg,
                ControlMessageView { state, ..msg },
                2,
                encode_state(s),
                rest,
                message_field(),
            );
        },
        None => {
            assert(Seq::<u8>::empty() + rest =~= rest);
        },
    }
}

proof fn lemma_store_part_back(
    msg: ControlMessageView,
    message: Option<StoreMessageView>,
    rest: Seq<u8>,
)
    requires
        msg.message is None,
        message matches Some(m) ==> encode_store(m).len() <= u64::MAX,
    ensures
        read_fields(
            msg,
            (match message {
                Some(m) => bytes_field(3, encode_store(m)),
                None => seq![],
            }) + rest,
            message_field(),
        ) == read_fields(ControlMessageView { message, ..msg }, rest, message_field()),
{
    match message {
        Some(m) => {
            lemma_store_back(m);
            lemma_read_bytes_back(3, encode_store(m), rest);
            lemma_read_bytes_field(
                msg,
                ControlMessageView { message, ..msg },
                3,
                encode_store(m),
                rest,
                message_field(),
            );
        },
        None => {
            assert(Seq::<u8>::empty() + rest =~= rest);
        },
    }
}

proof fn lemma_payload_back(msg: ControlMessageView, payload: Text)
    requires
        msg.payload == Seq::<char>::empty(),
        encode_text(4, payload).len() <= u64::MAX,
    ensures
        read_fields(msg, encode_text(4, payload), message_field()) == Some(
            ControlMessageView { payload, ..msg },
        ),
{
    let end = Seq::<u8>::empty();
    if payload.len() > 0 {
        lemma_read_string_back(4, payload, end);
        lemma_read_bytes_field(
            msg,
            ControlMessageView { payload, ..msg },
            4,
            encode_utf8(payload),
            end,
            message_field(),
        );
        assert(encode_text(4, payload) + end =~= encode_text(4, payload));
    } else {
        assert(payload =~= Seq::empty());
    }
}

/// Decoding what was encoded gives back the message, whatever it holds. The
/// encoding of a message is never longer than a 64-bit length can say.
pub proof fn law_decode_encode(msg: ControlMessageView)
    requires
        encode(msg).len() <= u64::MAX,
    ensures
        decode(encode(msg)) == Some(msg),
{
    let fourth = encode_text(4, msg.payload);
    let third = (match msg.message {
        Some(store) => bytes_field(3, encode_store(store)),
        None => seq![],
    }) + fourth;
    let second = (match msg.state {
        Some(state) => bytes_field(2, encode_state(state)),
        None => seq![],
    }) + third;
    let first = (if msg.message_type == 0 {
        seq![]
    } else {
        int32_field(1, msg.message_type)
    }) + second;
    assert(encode(msg) =~= first);
    let one = ControlMessageView { message_type: msg.message_type, ..no_message() };
    let two = ControlMessageView { state: msg.state, ..one };
    let three = ControlMessageView { message: msg.message, ..two };
    lemma_type_back(msg.message_type, second);
    lemma_state_part_back(one, msg.state, third);
    lemma_store_part_back(two, msg.message, fourth);
    lemma_payload_back(three, msg.payload);
}

} // verus!
