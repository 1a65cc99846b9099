//! The encoding of control messages as Protocol Buffers messages.

use prost::DecodeError;
use vstd::prelude::*;
use crate::protocol::{
    alias_views, Alias, AliasView, ControlMessage, ControlMessageView, NetworkState,
    NetworkStateView, StoreMessage, StoreMessageView,
};
use crate::text::{lemma_texts_push, texts, Text};
use crate::wire::{
    behind_field, behind_group, bytes_field, int32_field, put_bytes, put_int32, put_string,
    read_bytes, read_int32, read_key, read_string, refusal, skip_value, string_field, take_bytes,
    take_int32, take_key, take_string, END_GROUP, MAX_DEPTH, START_GROUP,
};
use crate::wire_laws::{
    lemma_behind_field_consumes, lemma_read_key_consumes, lemma_read_values_consume,
};

verus! {

/// A string that is left out where it is empty.
pub open spec fn encode_text(tag: u32, value: Text) -> Seq<u8> {
    if value.len() == 0 {
        seq![]
    } else {
        string_field(tag, value)
    }
}

/// A list of strings, one field for each.
pub open spec fn encode_texts(tag: u32, list: Seq<Text>) -> Seq<u8>
    decreases list.len(),
{
    if list.len() == 0 {
        seq![]
    } else {
        encode_texts(tag, list.drop_last()) + string_field(tag, list.last())
    }
}

/// The encoding of an alias entry.
pub open spec fn encode_alias(alias: AliasView) -> Seq<u8> {
    encode_text(1, alias.peer) + encode_text(2, alias.alias)
}

/// A list of alias entries, one field for each.
pub open spec fn encode_aliases(tag: u32, list: Seq<AliasView>) -> Seq<u8>
    decreases list.len(),
{
    if list.len() == 0 {
        seq![]
    } else {
        encode_aliases(tag, list.drop_last()) + bytes_field(tag, encode_alias(list.last()))
    }
}

/// The encoding of content to be kept.
pub open spec fn encode_store(store: StoreMessageView) -> Seq<u8> {
    (match store.receiver {
        Some(receiver) => string_field(1, receiver),
        None => seq![],
    }) + encode_text(2, store.data)
}

/// The encoding of the state of the network.
pub open spec fn encode_state(state: NetworkStateView) -> Seq<u8> {
    encode_texts(1, state.whitelisted) + encode_texts(2, state.connected) + encode_texts(
        3,
        state.whitelisted_sender,
    ) + encode_aliases(4, state.aliases)
}

/// The encoding of a control message.
pub open spec fn encode(msg: ControlMessageView) -> Seq<u8> {
    (if msg.message_type == 0 {
        seq![]
    } else {
        int32_field(1, msg.message_type)
    }) + (match msg.state {
        Some(state) => bytes_field(2, encode_state(state)),
        None => seq![],
    }) + (match msg.message {
        Some(store) => bytes_field(3, encode_store(store)),
        None => seq![],
    }) + encode_text(4, msg.payload)
}

/// How one field changes what has been read of a message: from what was read so
/// far, the field's number, the form of its value and the bytes behind its key,
/// to what is read then and the bytes behind the field.
pub type ReadField<M> = spec_fn(M, u32, u64, Seq<u8>) -> Option<(M, Seq<u8>)>;

/// What has been read of a message when all fields in `bytes` have been read
/// onto `msg`, one after the other; `None` where some field cannot be read.
pub open spec fn read_fields<M>(msg: M, bytes: Seq<u8>, field: ReadField<M>) -> Option<M>
    decreases bytes.len(),
{
    if bytes.len() == 0 {
        Some(msg)
    } else {
        match read_key(bytes) {
            Some((tag, wire, value)) => match field(msg, tag, wire, value) {
                Some((next, rest)) => if rest.len() < bytes.len() {
                    read_fields(next, rest, field)
                } else {
                    None
                },
                None => None,
            },
            None => None,
        }
    }
}

/// An alias entry of which nothing has been read.
pub open spec fn no_alias() -> AliasView {
    AliasView { peer: Seq::empty(), alias: Seq::empty() }
}

/// Content of which nothing has been read.
pub open spec fn no_store() -> StoreMessageView {
    StoreMessageView { receiver: None, data: Seq::empty() }
}

/// A state of which nothing has been read.
pub open spec fn no_state() -> NetworkStateView {
    NetworkStateView {
        whitelisted: Seq::empty(),
        connected: Seq::empty(),
        whitelisted_sender: Seq::empty(),
        aliases: Seq::empty(),
    }
}

/// A control message of which nothing has been read.
pub open spec fn no_message() -> ControlMessageView {
    ControlMessageView { message_type: 0, state: None, message: None, payload: Seq::empty() }
}

/// How many levels may be read inside the parts of a control message.
pub const PART_DEPTH: u32 = 99;

/// How many levels may be read inside an alias entry, which stands in such a part.
pub const ALIAS_DEPTH: u32 = 98;

/// A field that the message does not know: it is passed over.
pub open spec fn read_unknown<M>(
    msg: M,
    tag: u32,
    wire: u64,
    bytes: Seq<u8>,
    depth: u32,
) -> Option<(M, Seq<u8>)> {
    match behind_field(wire, tag, bytes, depth as nat) {
        Some(rest) => Some((msg, rest)),
        None => None,
    }
}

/// One field of an alias entry.
pub open spec fn read_alias_field(msg: AliasView, tag: u32, wire: u64, bytes: Seq<u8>) -> Option<
    (AliasView, Seq<u8>),
> {
    if tag == 1 {
        match read_string(wire, bytes) {
            Some((peer, rest)) => Some((AliasView { peer, ..msg }, rest)),
            None => None,
        }
    } else if tag == 2 {
        match read_string(wire, bytes) {
            Some((alias, rest)) => Some((AliasView { alias, ..msg }, rest)),
            None => None,
        }
    } else {
        read_unknown(msg, tag, wire, bytes, ALIAS_DEPTH)
    }
}

/// How the fields of an alias entry are read.
pub open spec fn alias_field() -> ReadField<AliasView> {
    |msg: AliasView, tag: u32, wire: u64, bytes: Seq<u8>| read_alias_field(msg, tag, wire, bytes)
}

/// One field of content to be kept.
pub open spec fn read_store_field(
    msg: StoreMessageView,
    tag: u32,
    wire: u64,
    bytes: Seq<u8>,
) -> Option<(StoreMessageView, Seq<u8>)> {
    if tag == 1 {
        match read_string(wire, bytes) {
            Some((receiver, rest)) => Some(
                (StoreMessageView { receiver: Some(receiver), ..msg }, rest),
            ),
            None => None,
        }
    } else if tag == 2 {
        match read_string(wire, bytes) {
            Some((data, rest)) => Some((StoreMessageView { data, ..msg }, rest)),
            None => None,
        }
    } else {
        read_unknown(msg, tag, wire, bytes, PART_DEPTH)
    }
}

/// How the fields of content to be kept are read.
pub open spec fn store_field() -> ReadField<StoreMessageView> {
    |msg: StoreMessageView, tag: u32, wire: u64, bytes: Seq<u8>|
        read_store_field(msg, tag, wire, bytes)
}

/// One field of the state of the network. The lists grow by one entry.
pub open spec fn read_state_field(
    msg: NetworkStateView,
    tag: u32,
    wire: u64,
    bytes: Seq<u8>,
) -> Option<(NetworkStateView, Seq<u8>)> {
    if tag == 1 {
        match read_string(wire, bytes) {
            Some((peer, rest)) => Some(
                (NetworkStateView { whitelisted: msg.whitelisted.push(peer), ..msg }, rest),
            ),
            None => None,
        }
    } else if tag == 2 {
        match read_string(wire, bytes) {
            Some((peer, rest)) => Some(
                (NetworkStateView { connected: msg.connected.push(peer), ..msg }, rest),
            ),
            None => None,
        }
    } else if tag == 3 {
        match read_string(wire, bytes) {
            Some((peer, rest)) => Some(
                (
                    NetworkStateView {
                        whitelisted_sender: msg.whitelisted_sender.push(peer),
                        ..msg
                    },
                    rest,
                ),
            ),
            None => None,
        }
    } else if tag == 4 {
        match read_bytes(wire, bytes) {
            Some((inner, rest)) => match read_fields(no_alias(), inner, alias_field()) {
                Some(alias) => Some(
                    (NetworkStateView { aliases: msg.aliases.push(alias), ..msg }, rest),
                ),
                None => None,
            },
            None => None,
        }
    } else {
        read_unknown(msg, tag, wire, bytes, PART_DEPTH)
    }
}

/// How the fields of the state of the network are read.
pub open spec fn state_field() -> ReadField<NetworkStateView> {
    |msg: NetworkStateView, tag: u32, wire: u64, bytes: Seq<u8>|
        read_state_field(msg, tag, wire, bytes)
}

/// One field of a control message. A nested message that comes more than once is
/// read onto what came before.
pub open spec fn read_message_field(
    msg: ControlMessageView,
    tag: u32,
    wire: u64,
    bytes: Seq<u8>,
) -> Option<(ControlMessageView, Seq<u8>)> {
    if tag == 1 {
        match read_int32(wire, bytes) {
            Some((message_type, rest)) => Some((ControlMessageView { message_type, ..msg }, rest)),
            None => None,
        }
    } else if tag == 2 {
        match read_bytes(wire, bytes) {
            Some((inner, rest)) => match read_fields(
                msg.state.unwrap_or(no_state()),
                inner,
                state_field(),
            ) {
                Some(state) => Some((ControlMessageView { state: Some(state), ..msg }, rest)),
                None => None,
            },
            None => None,
        }
    } else if tag == 3 {
        match read_bytes(wire, bytes) {
            Some((inner, rest)) => match read_fields(
                msg.message.unwrap_or(no_store()),
                inner,
                store_field(),
            ) {
                Some(store) => Some((ControlMessageView { message: Some(store), ..msg }, rest)),
                None => None,
            },
            None => None,
        }
    } else if tag == 4 {
        match read_string(wire, bytes) {
            Some((payload, rest)) => Some((ControlMessageView { payload, ..msg }, rest)),
            None => None,
        }
    } else {
        read_unknown(msg, tag, wire, bytes, MAX_DEPTH)
    }
}

/// How the fields of a control message are read.
pub open spec fn message_field() -> ReadField<ControlMessageView> {
    |msg: ControlMessageView, tag: u32, wire: u64, bytes: Seq<u8>|
        read_message_field(msg, tag, wire, bytes)
}

/// The control message that `bytes` encode, if they encode one.
pub open spec fn decode(bytes: Seq<u8>) -> Option<ControlMessageView> {
    read_fields(no_message(), bytes, message_field())
}

fn put_text(tag: u32, value: &String, buf: &mut Vec<u8>)
    requires
        1 <= tag <= 4,
    ensures
        final(buf)@ == old(buf)@ + encode_text(tag, value@),
{
    if !value.as_str().is_empty() {
        put_string(tag, value, buf);
    } else {
        assert(buf@ + encode_text(tag, value@) =~= buf@);
    }
}

fn put_texts(tag: u32, list: &Vec<String>, buf: &mut Vec<u8>)
    requires
        1 <= tag <= 4,
    ensures
        final(buf)@ == old(buf)@ + encode_texts(tag, texts(list@)),
{
    let ghost all = texts(list@);
    let ghost start = buf@;
    let mut i: usize = 0;
    assert(start + encode_texts(tag, all.take(0)) =~= start);
    while i < list.len()
        invariant
            1 <= tag <= 4,
            i <= list.len(),
            all == texts(list@),
            buf@ == start + encode_texts(tag, all.take(i as int)),
        decreases list.len() - i,
    {
        let ghost done = all.take(i + 1);
        assert(done.drop_last() =~= all.take(i as int));
        assert(done.last() == list@[i as int]@);
        put_string(tag, &list[i], buf);
        assert(buf@ =~= start + encode_texts(tag, done));
        i += 1;
    }
    assert(all.take(all.len() as int) =~= all);
}

fn alias_bytes(alias: &Alias) -> (bytes: Vec<u8>)
    ensures
        bytes@ == encode_alias(alias@),
{
    let mut bytes: Vec<u8> = Vec::new();
    put_text(1, &alias.peer, &mut bytes);
    put_text(2, &alias.alias, &mut bytes);
    assert(bytes@ =~= encode_alias(alias@));
    bytes
}

fn put_aliases(tag: u32, list: &Vec<Alias>, buf: &mut Vec<u8>)
    requires
        1 <= tag <= 4,
    ensures
        final(buf)@ == old(buf)@ + encode_aliases(tag, alias_views(list@)),
{
    let ghost all = alias_views(list@);
    let ghost start = buf@;
    let mut i: usize = 0;
    assert(start + encode_aliases(tag, all.take(0)) =~= start);
    while i < list.len()
        invariant
            1 <= tag <= 4,
            i <= list.len(),
            all == alias_views(list@),
            buf@ == start + encode_aliases(tag, all.take(i as int)),
        decreases list.len() - i,
    {
        let ghost done = all.take(i + 1);
        assert(done.drop_last() =~= all.take(i as int));
        assert(done.last() == list@[i as int]@);
        let inner: Vec<u8> = alias_bytes(&list[i]);
        put_bytes(tag, &inner, buf);
        assert(buf@ =~= start + encode_aliases(tag, done));
        i += 1;
    }
    assert(all.take(all.len() as int) =~= all);
}

fn store_bytes(store: &StoreMessage) -> (bytes: Vec<u8>)
    ensures
        bytes@ == encode_store(store@),
{
    let mut bytes: Vec<u8> = Vec::new();
    match &store.receiver {
        Some(receiver) => put_string(1, receiver, &mut bytes),
        None => {},
    }
    put_text(2, &store.data, &mut bytes);
    assert(bytes@ =~= encode_store(store@));
    bytes
}

fn state_bytes(state: &NetworkState) -> (bytes: Vec<u8>)
    ensures
        bytes@ == encode_state(state@),
{
    let mut bytes: Vec<u8> = Vec::new();
    put_texts(1, &state.whitelisted, &mut bytes);
    put_texts(2, &state.connected, &mut bytes);
    put_texts(3, &state.whitelisted_sender, &mut bytes);
    put_aliases(4, &state.aliases, &mut bytes);
    assert(bytes@ =~= encode_state(state@));
    bytes
}

impl ControlMessage {
    /// The bytes that stand for this message on the network.
    pub fn encode_to_vec(&self) -> (bytes: Vec<u8>)
        ensures
            bytes@ == encode(self@),
    {
        let mut bytes: Vec<u8> = Vec::new();
        if self.message_type != 0 {
            put_int32(1, self.message_type, &mut bytes);
        }
        match &self.state {
            Some(state) => put_bytes(2, &state_bytes(state), &mut bytes),
            None => {},
        }
        match &self.message {
            Some(store) => put_bytes(3, &store_bytes(store), &mut bytes),
            None => {},
        }
        put_text(4, &self.payload, &mut bytes);
        assert(bytes@ =~= encode(self@));
        bytes
    }
}

/// Passes over the value of a field, where `depth` levels may still be read.
fn skip_field<'a>(wire: u64, tag: u32, buf: &'a [u8], depth: u32) -> (result: Result<
    &'a [u8],
    DecodeError,
>)
    ensures
        match result {
            Ok(rest) => behind_field(wire, tag, buf@, depth as nat) == Some(rest@) && rest@.len()
                <= buf@.len(),
            Err(_) => behind_field(wire, tag, buf@, depth as nat) is None,
        },
    decreases depth,
{
    proof {
        lemma_behind_field_consumes(wire, tag, buf@, depth as nat);
    }
    if depth == 0 {
        return Err(refusal("recursion limit reached"));
    }
    if wire != START_GROUP {
        return skip_value(wire, tag, buf);
    }
    let mut rest: &'a [u8] = buf;
    loop
        invariant
            depth > 0,
            wire == START_GROUP,
            behind_field(wire, tag, buf@, depth as nat) == behind_group(tag, rest@, depth as nat),
            behind_field(wire, tag, buf@, depth as nat) matches Some(end) ==> end.len()
                <= buf@.len(),
        decreases rest@.len(),
    {
        proof {
            lemma_read_key_consumes(rest@);
        }
        let (inner, inner_wire, value) = take_key(rest)?;
        if inner_wire == END_GROUP {
            if inner == tag {
                return Ok(value);
            }
            return Err(refusal("unexpected end group tag"));
        }
        rest = skip_field(inner_wire, inner, value, depth - 1)?;
    }
}

fn take_alias_field<'a>(msg: Alias, tag: u32, wire: u64, buf: &'a [u8]) -> (result: Result<
    (Alias, &'a [u8]),
    DecodeError,
>)
    ensures
        match result {
            Ok((next, rest)) => read_alias_field(msg@, tag, wire, buf@) == Some((next@, rest@))
                && rest@.len() <= buf@.len(),
            Err(_) => read_alias_field(msg@, tag, wire, buf@) is None,
        },
{
    proof {
        lemma_read_values_consume(wire, buf@);
    }
    let mut msg: Alias = msg;
    let rest: &'a [u8] = match tag {
        1 => {
            let (peer, rest) = take_string(wire, buf)?;
            msg.peer = peer;
            rest
        },
        2 => {
            let (alias, rest) = take_string(wire, buf)?;
            msg.alias = alias;
            rest
        },
        _ => skip_field(wire, tag, buf, ALIAS_DEPTH)?,
    };
    Ok((msg, rest))
}

fn take_alias<'a>(msg: Alias, buf: &'a [u8]) -> (result: Result<Alias, DecodeError>)
    ensures
        match result {
            Ok(next) => read_fields(msg@, buf@, alias_field()) == Some(next@),
            Err(_) => read_fields(msg@, buf@, alias_field()) is None,
        },
{
    let mut read: Alias = msg;
    let mut rest: &'a [u8] = buf;
    while rest.len() > 0
        invariant
            read_fields(msg@, buf@, alias_field()) == read_fields(read@, rest@, alias_field()),
        decreases rest@.len(),
    {
        proof {
            lemma_read_key_consumes(rest@);
        }
        let (tag, wire, value) = take_key(rest)?;
        let (next, behind) = take_alias_field(read, tag, wire, value)?;
        read = next;
        rest = behind;
    }
    Ok(read)
}

fn take_store_field<'a>(msg: StoreMessage, tag: u32, wire: u64, buf: &'a [u8]) -> (result: Result<
    (StoreMessage, &'a [u8]),
    DecodeError,
>)
    ensures
        match result {
            Ok((next, rest)) => read_store_field(msg@, tag, wire, buf@) == Some((next@, rest@))
                && rest@.len() <= buf@.len(),
            Err(_) => read_store_field(msg@, tag, wire, buf@) is None,
        },
{
    proof {
        lemma_read_values_consume(wire, buf@);
    }
    let mut msg: StoreMessage = msg;
    let rest: &'a [u8] = match tag {
        1 => {
            let (receiver, rest) = take_string(wire, buf)?;
            msg.receiver = Some(receiver);
            rest
        },
        2 => {
            let (data, rest) = take_string(wire, buf)?;
            msg.data = data;
            rest
        },
        _ => skip_field(wire, tag, buf, PART_DEPTH)?,
    };
    Ok((msg, rest))
}

fn take_store<'a>(msg: StoreMessage, buf: &'a [u8]) -> (result: Result<StoreMessage, DecodeError>)
    ensures
        match result {
            Ok(next) => read_fields(msg@, buf@, store_field()) == Some(next@),
            Err(_) => read_fields(msg@, buf@, store_field()) is None,
        },
{
    let mut read: StoreMessage = msg;
    let mut rest: &'a [u8] = buf;
    while rest.len() > 0
        invariant
            read_fields(msg@, buf@, store_field()) == read_fields(read@, rest@, store_field()),
        decreases rest@.len(),
    {
        proof {
            lemma_read_key_consumes(rest@);
        }
        let (tag, wire, value) = take_key(rest)?;
        let (next, behind) = take_store_field(read, tag, wire, value)?;
        read = next;
        rest = behind;
    }
    Ok(read)
}

fn empty_state() -> (state: NetworkState)
    ensures
        state@ == no_state(),
{
    let state: NetworkState = NetworkState {
        whitelisted: Vec::new(),
        connected: Vec::new(),
        whitelisted_sender: Vec::new(),
        aliases: Vec::new(),
    };
    assert(state@ =~= no_state());
    state
}

fn take_state_field<'a>(msg: NetworkState, tag: u32, wire: u64, buf: &'a [u8]) -> (result: Result<
    (NetworkState, &'a [u8]),
    DecodeError,
>)
    ensures
        match result {
            Ok((next, rest)) => read_state_field(msg@, tag, wire, buf@) == Some((next@, rest@))
                && rest@.len() <= buf@.len(),
            Err(_) => read_state_field(msg@, tag, wire, buf@) is None,
        },
{
    proof {
        lemma_read_values_consume(wire, buf@);
    }
    let mut msg: NetworkState = msg;
    let rest: &'a [u8] = match tag {
        1 => {
            let (peer, rest) = take_string(wire, buf)?;
            proof {
                lemma_texts_push(msg.whitelisted@, peer);
            }
            msg.whitelisted.push(peer);
            rest
        },
        2 => {
            let (peer, rest) = take_string(wire, buf)?;
            proof {
                lemma_texts_push(msg.connected@, peer);
            }
            msg.connected.push(peer);
            rest
        },
        3 => {
            let (peer, rest) = take_string(wire, buf)?;
            proof {
                lemma_texts_push(msg.whitelisted_sender@, peer);
            }
            msg.whitelisted_sender.push(peer);
            rest
        },
        4 => {
            let (inner, rest) = take_bytes(wire, buf)?;
            let empty: Alias = Alias { peer: String::new(), alias: String::new() };
            let alias: Alias = take_alias(empty, inner.as_slice())?;
            assert(alias_views(msg.aliases@.push(alias)) =~= alias_views(msg.aliases@).push(
                alias@,
            ));
            msg.aliases.push(alias);
            rest
        },
        _ => skip_field(wire, tag, buf, PART_DEPTH)?,
    };
    Ok((msg, rest))
}

fn take_state<'a>(msg: NetworkState, buf: &'a [u8]) -> (result: Result<NetworkState, DecodeError>)
    ensures
        match result {
            Ok(next) => read_fields(msg@, buf@, state_field()) == Some(next@),
            Err(_) => read_fields(msg@, buf@, state_field()) is None,
        },
{
    let mut read: NetworkState = msg;
    let mut rest: &'a [u8] = buf;
    while rest.len() > 0
        invariant
            read_fields(msg@, buf@, state_field()) == read_fields(read@, rest@, state_field()),
        decreases rest@.len(),
    {
        proof {
            lemma_read_key_consumes(rest@);
        }
        let (tag, wire, value) = take_key(rest)?;
        let (next, behind) = take_state_field(read, tag, wire, value)?;
        read = next;
        rest = behind;
    }
    Ok(read)
}

fn take_message_field<'a>(msg: ControlMessage, tag: u32, wire: u64, buf: &'a [u8]) -> (result: Result<
    (ControlMessage, &'a [u8]),
    DecodeError,
>)
    ensures
        match result {
            Ok((next, rest)) => read_message_field(msg@, tag, wire, buf@) == Some((next@, rest@))
                && rest@.len() <= buf@.len(),
            Err(_) => read_message_field(msg@, tag, wire, buf@) is None,
        },
{
    proof {
        lemma_read_values_consume(wire, buf@);
    }
    let mut msg: ControlMessage = msg;
    let rest: &'a [u8] = match tag {
        1 => {
            let (message_type, rest) = take_int32(wire, buf)?;
            msg.message_type = message_type;
            rest
        },
        2 => {
            let (inner, rest) = take_bytes(wire, buf)?;
            let state: NetworkState = match msg.state {
                Some(state) => state,
                None => empty_state(),
            };
            msg.state = Some(take_state(state, inner.as_slice())?);
            rest
        },
        3 => {
            let (inner, rest) = take_bytes(wire, buf)?;
            let store: StoreMessage = match msg.message {
                Some(store) => store,
                None => StoreMessage { receiver: None, data: String::new() },
            };
            msg.message = Some(take_store(store, inner.as_slice())?);
            rest
        },
        4 => {
            let (payload, rest) = take_string(wire, buf)?;
            msg.payload = payload;
            rest
        },
        _ => skip_field(wire, tag, buf, MAX_DEPTH)?,
    };
    Ok((msg, rest))
}

fn take_message<'a>(msg: ControlMessage, buf: &'a [u8]) -> (result: Result<ControlMessage, DecodeError>)
    ensures
        match result {
            Ok(next) => read_fields(msg@, buf@, message_field()) == Some(next@),
            Err(_) => read_fields(msg@, buf@, message_field()) is None,
        },
{
    let mut read: ControlMessage = msg;
    let mut rest: &'a [u8] = buf;
    while rest.len() > 0
        invariant
            read_fields(msg@, buf@, message_field()) == read_fields(read@, rest@, message_field()),
        decreases rest@.len(),
    {
        proof {
            lemma_read_key_consumes(rest@);
        }
        let (tag, wire, value) = take_key(rest)?;
        let (next, behind) = take_message_field(read, tag, wire, value)?;
        read = next;
        rest = behind;
    }
    Ok(read)
}

impl ControlMessage {
    /// The message that `data` encode.
    pub fn decode(data: &[u8]) -> (result: Result<ControlMessage, DecodeError>)
        ensures
            match result {
                Ok(msg) => decode(data@) == Some(msg@),
                Err(_) => decode(data@) is None,
            },
    {
        let empty: ControlMessage = ControlMessage {
            message_type: 0,
            state: None,
            message: None,
            payload: String::new(),
        };
        assert(empty@ =~= no_message());
        take_message(empty, data)
    }
}

} // verus!
