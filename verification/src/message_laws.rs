//! What each message has a node do, whatever the node knows. Messages that leave
//! the node are described by what is read from their bytes.

use vstd::prelude::*;
use crate::aliases::put_all;
use crate::codec::{decode, encode};
use crate::codec_laws::law_decode_encode;
use crate::laws::law_versions_ordered;
use crate::model::{
    can_handle, farewell, is_authorized, on_input, on_message, on_network_event, on_received,
    on_user_command, resolved, tell, transmit, NodeView,
};
use crate::protocol::{
    numbered_type, plain_message, store_message, AliasView, ControlMessageView, MessageType,
    NetworkStateView, StoreMessageView,
};
use crate::text::{at_or_after, Text};
use crate::turn::{ActionView, Input, NextView, QuestionView, ReceiveError, TurnView};

verus! {

/// Whether `bytes` are read as a message of type `kind` that carries `payload`
/// and nothing else.
pub open spec fn carries(bytes: Seq<u8>, kind: MessageType, payload: Text) -> bool {
    bytes.len() <= u64::MAX ==> {
        &&& decode(bytes) matches Some(msg)
        &&& numbered_type(msg.message_type) == Some(kind)
        &&& msg.payload == payload
        &&& msg.state is None
        &&& msg.message is None
    }
}

/// Whether `action` hands a message of type `kind` with `payload` to `target`, or
/// publishes it where there is no target.
pub open spec fn tells(
    action: ActionView,
    target: Option<Text>,
    kind: MessageType,
    payload: Text,
) -> bool {
    &&& action matches ActionView::Transmit { target: to, data }
    &&& to == target
    &&& carries(data, kind, payload)
}

/// Whether `action` asks `target` to keep `data` for `receiver`, or for all where
/// there is no receiver.
pub open spec fn asks_to_keep(
    action: ActionView,
    target: Text,
    receiver: Option<Text>,
    data: Text,
) -> bool {
    &&& action matches ActionView::Transmit { target: to, data: bytes }
    &&& to == Some(target)
    &&& bytes.len() <= u64::MAX ==> {
        &&& decode(bytes) matches Some(msg)
        &&& numbered_type(msg.message_type) == Some(MessageType::StoreMessage)
        &&& msg.message == Some(StoreMessageView { receiver, data })
        &&& msg.state is None
        &&& msg.payload.len() == 0
    }
}

pub(crate) proof fn lemma_tells()
    ensures
        forall|kind: MessageType, payload: Text, target: Option<Text>|
            tells(#[trigger] tell(kind, payload, target), target, kind, payload),
{
    assert forall|kind: MessageType, payload: Text, target: Option<Text>| tells(
        #[trigger] tell(kind, payload, target),
        target,
        kind,
        payload,
    ) by {
        let msg = plain_message(kind, payload);
        if encode(msg).len() <= u64::MAX {
            law_decode_encode(msg);
        }
    }
}

pub(crate) proof fn lemma_asks_to_keep(receiver: Option<Text>, data: Text, target: Text)
    ensures
        asks_to_keep(transmit(store_message(receiver, data), Some(target)), target, receiver, data),
{
    let msg = store_message(receiver, data);
    if encode(msg).len() <= u64::MAX {
        law_decode_encode(msg);
    }
}

/// What is sent goes to the target, or to the whole network where there is none,
/// and is read there as the message that was sent.
pub proof fn law_message_sent(msg: ControlMessageView, target: Option<Text>)
    ensures
        transmit(msg, target) matches ActionView::Transmit { target: to, data } && to == target && (
        data.len() <= u64::MAX ==> decode(data) == Some(msg)),
{
    if encode(msg).len() <= u64::MAX {
        law_decode_encode(msg);
    }
}

/// A node listens to everybody where it has authorized nobody, and otherwise to
/// itself and to exactly those that it has authorized.
pub proof fn law_listening(node: NodeView, sender: Text)
    ensures
        is_authorized(node, sender) <==> (node.authorized_senders.len() > 0 ==> sender
            == node.local_id || exists|i: int|
            0 <= i < node.authorized_senders.len() && node.authorized_senders[i] == sender),
{
}

/// A name in the table stands for its entry, and any other name for itself.
pub proof fn law_resolved(aliases: Map<Text, Text>, id: Text)
    ensures
        aliases.contains_key(id) ==> resolved(aliases, id) == aliases[id],
        !aliases.contains_key(id) ==> resolved(aliases, id) == id,
{
}

/// Bytes are refused, and nothing changes, where no message is read from them,
/// where its type is not known, and where a sender that is listened to tells a
/// state without one. All other bytes are handled as the message that is read.
pub proof fn law_bytes_received(node: NodeView, sender: Text, data: Seq<u8>, broadcasted: bool)
    ensures
        match decode(data) {
            None => on_received(node, sender, data, broadcasted) == (
                node,
                Err::<TurnView, ReceiveError>(ReceiveError::Undecodable),
            ),
            Some(msg) => {
                let (next, turn) = on_message(node, sender, msg, broadcasted);
                on_received(node, sender, data, broadcasted) == match numbered_type(
                    msg.message_type,
                ) {
                    None => (node, Err::<TurnView, ReceiveError>(ReceiveError::UnknownType)),
                    Some(kind) => if kind == MessageType::State && msg.state is None
                        && is_authorized(node, sender) {
                        (node, Err(ReceiveError::MissingState))
                    } else {
                        (next, Ok(turn))
                    },
                }
            },
        },
        decode(data) matches Some(msg) ==> (can_handle(node, sender, msg) <==> on_received(
            node,
            sender,
            data,
            broadcasted,
        ).1 is Ok),
{
}

/// An input is handled as the bytes, the command or the event that it is.
pub proof fn law_inputs(node: NodeView, input: Input)
    ensures
        match input {
            Input::Received { sender, data, broadcasted } => on_input(node, input) == on_received(
                node,
                sender@,
                data@,
                broadcasted,
            ),
            Input::Command(command) => {
                let (next, turn) = on_user_command(node, command);
                on_input(node, input) == (next, Ok::<TurnView, ReceiveError>(turn))
            },
            Input::CommandsClosed => on_input(node, input) == (
                node,
                Ok::<TurnView, ReceiveError>(farewell(node)),
            ),
            Input::Event(event) => {
                let (next, turn) = on_network_event(node, event);
                on_input(node, input) == (next, Ok::<TurnView, ReceiveError>(turn))
            },
        },
{
}

/// A sender that is not listened to has nothing done and changes nothing,
/// whatever the message says.
pub proof fn law_message_unheard(
    node: NodeView,
    sender: Text,
    msg: ControlMessageView,
    broadcasted: bool,
)
    requires
        !is_authorized(node, sender),
    ensures
        on_message(node, sender, msg, broadcasted).0 == node,
        on_message(node, sender, msg, broadcasted).1.actions.len() == 0,
        on_message(node, sender, msg, broadcasted).1.next == NextView::Wait,
{
}

/// A message for the display is shown; where it went to the whole network, it is
/// kept for all before that.
pub proof fn law_on_display_message(
    node: NodeView,
    sender: Text,
    msg: ControlMessageView,
    broadcasted: bool,
)
    requires
        is_authorized(node, sender),
        numbered_type(msg.message_type) == Some(MessageType::DisplayMessage),
    ensures
        ({
            let (next, turn) = on_message(node, sender, msg, broadcasted);
            &&& next == node
            &&& turn.next == NextView::Wait
            &&& turn.actions.last() == ActionView::Display(msg.payload)
            &&& broadcasted ==> turn.actions.len() == 2 && turn.actions[0]
                == ActionView::StoreBroadcast(msg.payload)
            &&& !broadcasted ==> turn.actions.len() == 1
        }),
{
}

/// A peer that is to be whitelisted is handed to the network layer.
pub proof fn law_on_add_whitelist_peer(
    node: NodeView,
    sender: Text,
    msg: ControlMessageView,
    broadcasted: bool,
)
    requires
        is_authorized(node, sender),
        numbered_type(msg.message_type) == Some(MessageType::AddWhitelistPeer),
    ensures
        ({
            let (next, turn) = on_message(node, sender, msg, broadcasted);
            &&& next == node
            &&& turn.next == NextView::Wait
            &&& turn.actions.len() == 1
            &&& turn.actions[0] == ActionView::AddWhitelisted(msg.payload)
        }),
{
}

/// A sender that is to be authorized comes last in the list, and nothing else
/// changes.
pub proof fn law_on_add_whitelist_sender(
    node: NodeView,
    sender: Text,
    msg: ControlMessageView,
    broadcasted: bool,
)
    requires
        is_authorized(node, sender),
        numbered_type(msg.message_type) == Some(MessageType::AddWhitelistSender),
    ensures
        ({
            let (next, turn) = on_message(node, sender, msg, broadcasted);
            &&& next == (NodeView { authorized_senders: next.authorized_senders, ..node })
            &&& next.authorized_senders == node.authorized_senders + seq![msg.payload]
            &&& is_authorized(next, msg.payload)
            &&& turn.next == NextView::Wait
            &&& turn.actions.len() == 0
        }),
{
    let all = node.authorized_senders + seq![msg.payload];
    assert(node.authorized_senders.push(msg.payload) =~= all);
    assert(all[node.authorized_senders.len() as int] == msg.payload);
    assert(all.contains(msg.payload));
}

/// An alias that is taken changes nothing. A free one then stands for the sender,
/// who has no other; the aliases of other peers are as before. It makes no
/// difference how the alias was published, and nothing else is done.
pub proof fn law_on_publish_alias(
    node: NodeView,
    sender: Text,
    msg: ControlMessageView,
    broadcasted: bool,
)
    requires
        is_authorized(node, sender),
        numbered_type(msg.message_type) == Some(MessageType::PublishAlias),
    ensures
        ({
            let (next, turn) = on_message(node, sender, msg, broadcasted);
            &&& next == (NodeView { aliases: next.aliases, ..node })
            &&& node.aliases.contains_key(msg.payload) ==> next.aliases == node.aliases
            &&& !node.aliases.contains_key(msg.payload) ==> {
                &&& next.aliases.contains_key(msg.payload)
                &&& next.aliases[msg.payload] == sender
                &&& forall|name: Text|
                    name != msg.payload ==> (#[trigger] next.aliases.contains_key(name) <==> (
                    node.aliases.contains_key(name) && node.aliases[name] != sender))
                &&& forall|name: Text|
                    name != msg.payload && #[trigger] next.aliases.contains_key(name)
                        ==> next.aliases[name] == node.aliases[name]
            }
            &&& turn.next == NextView::Wait
            &&& turn.actions.len() == 0
        }),
{
}

/// A node that is asked for the state of the network looks it up for the sender.
pub proof fn law_on_network_solicitation(
    node: NodeView,
    sender: Text,
    msg: ControlMessageView,
    broadcasted: bool,
)
    requires
        is_authorized(node, sender),
        numbered_type(msg.message_type) == Some(MessageType::NetworkSolicitation),
    ensures
        ({
            let (next, turn) = on_message(node, sender, msg, broadcasted);
            &&& next == node
            &&& turn.actions.len() == 0
            &&& turn.next == NextView::Ask(QuestionView::NetworkState { sender })
        }),
{
}

/// A program that is offered is installed from the address in the offer, whether
/// the node has asked for it or not.
pub proof fn law_on_upgrade(
    node: NodeView,
    sender: Text,
    msg: ControlMessageView,
    broadcasted: bool,
)
    requires
        is_authorized(node, sender),
        numbered_type(msg.message_type) == Some(MessageType::Upgrade),
    ensures
        ({
            let (next, turn) = on_message(node, sender, msg, broadcasted);
            &&& next == node
            &&& turn.next == NextView::Wait
            &&& turn.actions.len() == 1
            &&& turn.actions[0] == ActionView::UpgradeBinary(msg.payload)
        }),
{
}

/// A node that is asked for its program serves it once and offers it to the
/// sender at each of its addresses, in order, unless it upgrades itself.
pub proof fn law_on_request_upgrade(
    node: NodeView,
    sender: Text,
    msg: ControlMessageView,
    broadcasted: bool,
)
    requires
        is_authorized(node, sender),
        numbered_type(msg.message_type) == Some(MessageType::RequestUpgrade),
    ensures
        ({
            let (next, turn) = on_message(node, sender, msg, broadcasted);
            &&& next == node
            &&& turn.next == NextView::Wait
            &&& node.upgrade_in_progress ==> turn.actions.len() == 0
            &&& !node.upgrade_in_progress ==> {
                &&& turn.actions.len() == 1 + node.listening_addrs.len()
                &&& turn.actions[0] == ActionView::ServeBinaryOnce
                &&& forall|i: int|
                    0 <= i < node.listening_addrs.len() ==> tells(
                        #[trigger] turn.actions[1 + i],
                        Some(sender),
                        MessageType::Upgrade,
                        node.listening_addrs[i] + seq![':'] + node.upgrade_port,
                    )
            }
        }),
{
    lemma_tells();
    reveal_strlit(":");
    assert(":"@ =~= seq![':']);
}

/// A node asks the sender of a version for its program if and only if it has not
/// asked anybody yet and has no version or one that stands before the sender's.
/// It then notes that it has asked.
pub proof fn law_on_network_binary_version(
    node: NodeView,
    sender: Text,
    msg: ControlMessageView,
    broadcasted: bool,
)
    requires
        is_authorized(node, sender),
        numbered_type(msg.message_type) == Some(MessageType::NetworkBinaryVersion),
    ensures
        ({
            let (next, turn) = on_message(node, sender, msg, broadcasted);
            let older = node.version is None || (node.version->0 != msg.payload
                && at_or_after(msg.payload, node.version->0));
            &&& next == (NodeView { upgrade_in_progress: next.upgrade_in_progress, ..node })
            &&& turn.next == NextView::Wait
            &&& older && !node.upgrade_in_progress ==> {
                &&& next.upgrade_in_progress
                &&& turn.actions.len() == 1
                &&& tells(
                    turn.actions[0],
                    Some(sender),
                    MessageType::RequestUpgrade,
                    Seq::empty(),
                )
            }
            &&& !older || node.upgrade_in_progress ==> {
                &&& next.upgrade_in_progress == node.upgrade_in_progress
                &&& turn.actions.len() == 0
            }
        }),
{
    lemma_tells();
    if let Some(version) = node.version {
        law_versions_ordered(version, msg.payload);
    }
}

/// A peer that is online is made known to the distributed table, whatever the
/// node knew of it.
pub proof fn law_on_peer_connected(
    node: NodeView,
    sender: Text,
    msg: ControlMessageView,
    broadcasted: bool,
)
    requires
        is_authorized(node, sender),
        numbered_type(msg.message_type) == Some(MessageType::PeerConnected),
    ensures
        ({
            let (next, turn) = on_message(node, sender, msg, broadcasted);
            &&& next == node
            &&& turn.actions.len() == 0
            &&& turn.next == NextView::Ask(QuestionView::Arrival { peer: msg.payload })
        }),
{
}

/// A peer that is offline is made known to the distributed table. Where it is the
/// node itself, the whole network is told that it is online.
pub proof fn law_on_peer_disconnected(
    node: NodeView,
    sender: Text,
    msg: ControlMessageView,
    broadcasted: bool,
)
    requires
        is_authorized(node, sender),
        numbered_type(msg.message_type) == Some(MessageType::PeerDisconnected),
    ensures
        ({
            let (next, turn) = on_message(node, sender, msg, broadcasted);
            &&& next == node
            &&& msg.payload == node.local_id ==> {
                &&& turn.next == NextView::Wait
                &&& turn.actions.len() == 1
                &&& tells(turn.actions[0], None, MessageType::PeerConnected, node.local_id)
            }
            &&& msg.payload != node.local_id ==> {
                &&& turn.actions.len() == 0
                &&& turn.next == NextView::Ask(
                    QuestionView::Departure { peer: msg.payload, closing: false },
                )
            }
        }),
{
    lemma_tells();
}

/// A node that is asked for what was missed looks up what is kept for the sender.
pub proof fn law_on_request_message(
    node: NodeView,
    sender: Text,
    msg: ControlMessageView,
    broadcasted: bool,
)
    requires
        is_authorized(node, sender),
        numbered_type(msg.message_type) == Some(MessageType::RequestMessage),
    ensures
        ({
            let (next, turn) = on_message(node, sender, msg, broadcasted);
            &&& next == node
            &&& turn.actions.len() == 0
            &&& turn.next == NextView::Ask(QuestionView::Content { receiver: sender })
        }),
{
}

/// Content that is to be kept is kept for its receiver, or for all where it has
/// none; a request without content has nothing done.
pub proof fn law_on_store_message(
    node: NodeView,
    sender: Text,
    msg: ControlMessageView,
    broadcasted: bool,
)
    requires
        is_authorized(node, sender),
        numbered_type(msg.message_type) == Some(MessageType::StoreMessage),
    ensures
        ({
            let (next, turn) = on_message(node, sender, msg, broadcasted);
            &&& next == node
            &&& turn.next == NextView::Wait
            &&& msg.message is None ==> turn.actions.len() == 0
            &&& msg.message matches Some(store) ==> {
                &&& turn.actions.len() == 1
                &&& store.receiver is None ==> turn.actions[0] == ActionView::StoreBroadcast(
                    store.data,
                )
                &&& store.receiver matches Some(receiver) ==> turn.actions[0]
                    == (ActionView::Store { receiver, data: store.data })
            }
        }),
{
}

proof fn lemma_put_all_entries(table: Map<Text, Text>, list: Seq<AliasView>)
    ensures
        forall|name: Text|
            (forall|i: int| 0 <= i < list.len() ==> (#[trigger] list[i]).peer != name) ==> (
            #[trigger] put_all(table, list).contains_key(name) <==> table.contains_key(name)) && (
            table.contains_key(name) ==> put_all(table, list)[name] == table[name]),
        forall|i: int|
            0 <= i < list.len() && (forall|j: int|
                i < j < list.len() ==> (#[trigger] list[j]).peer != list[i].peer) ==> put_all(
                table,
                list,
            ).contains_key((#[trigger] list[i]).peer) && put_all(table, list)[list[i].peer]
                == list[i].alias,
    decreases list.len(),
{
    if list.len() > 0 {
        let start = list.drop_last();
        lemma_put_all_entries(table, start);
        assert forall|name: Text|
            (forall|i: int| 0 <= i < list.len() ==> (#[trigger] list[i]).peer != name) implies (
        #[trigger] put_all(table, list).contains_key(name) <==> table.contains_key(name)) && (
        table.contains_key(name) ==> put_all(table, list)[name] == table[name]) by {
            assert forall|i: int| 0 <= i < start.len() implies (#[trigger] start[i]).peer
                != name by {
                assert(start[i] == list[i]);
            }
            assert(list[list.len() - 1].peer != name);
            assert(put_all(table, start).contains_key(name) <==> table.contains_key(name));
        }
        assert forall|i: int|
            0 <= i < list.len() && (forall|j: int|
                i < j < list.len() ==> (#[trigger] list[j]).peer != list[i].peer) implies put_all(
            table,
            list,
        ).contains_key((#[trigger] list[i]).peer) && put_all(table, list)[list[i].peer]
            == list[i].alias by {
            if i < start.len() {
                assert(start[i] == list[i]);
                assert(list[list.len() - 1].peer != list[i].peer);
                assert forall|j: int| i < j < start.len() implies (#[trigger] start[j]).peer
                    != start[i].peer by {
                    assert(start[j] == list[j]);
                }
            }
        }
    }
}

/// News of the network: the distributed table is told of each online peer, in
/// order, then the network layer of each whitelisted one, in order, and then the
/// node always goes on to look for what it has missed. All that the teller has
/// authorized come behind those that the node has authorized. Each name in the
/// list of aliases stands for what its last entry says, and all other names for
/// what they stood for before. Nothing else changes.
pub proof fn law_on_state(
    node: NodeView,
    sender: Text,
    msg: ControlMessageView,
    broadcasted: bool,
    state: NetworkStateView,
)
    requires
        is_authorized(node, sender),
        numbered_type(msg.message_type) == Some(MessageType::State),
        msg.state == Some(state),
    ensures
        ({
            let (next, turn) = on_message(node, sender, msg, broadcasted);
            &&& next == (NodeView {
                authorized_senders: next.authorized_senders,
                aliases: next.aliases,
                ..node
            })
            &&& next.authorized_senders == node.authorized_senders + state.whitelisted_sender
            &&& forall|name: Text|
                (forall|i: int|
                    0 <= i < state.aliases.len() ==> (#[trigger] state.aliases[i]).peer != name)
                    ==> (#[trigger] next.aliases.contains_key(name) <==> node.aliases.contains_key(
                    name,
                )) && (node.aliases.contains_key(name) ==> next.aliases[name]
                    == node.aliases[name])
            &&& forall|i: int|
                0 <= i < state.aliases.len() && (forall|j: int|
                    i < j < state.aliases.len() ==> (#[trigger] state.aliases[j]).peer
                        != state.aliases[i].peer) ==> next.aliases.contains_key(
                    (#[trigger] state.aliases[i]).peer,
                ) && next.aliases[state.aliases[i].peer] == state.aliases[i].alias
            &&& turn.actions.len() == state.connected.len() + state.whitelisted.len()
            &&& forall|i: int|
                0 <= i < state.connected.len() ==> #[trigger] turn.actions[i]
                    == ActionView::AddPeer(state.connected[i])
            &&& forall|i: int|
                0 <= i < state.whitelisted.len() ==> #[trigger] turn.actions[state.connected.len()
                    + i] == ActionView::AddWhitelisted(state.whitelisted[i])
            &&& turn.next == NextView::Ask(QuestionView::Nearest { peer: node.local_id })
        }),
{
    lemma_put_all_entries(node.aliases, state.aliases);
}

/// A message whose type is not known has nothing done.
pub proof fn law_on_unknown_type(
    node: NodeView,
    sender: Text,
    msg: ControlMessageView,
    broadcasted: bool,
)
    requires
        numbered_type(msg.message_type) is None,
    ensures
        on_message(node, sender, msg, broadcasted).0 == node,
        on_message(node, sender, msg, broadcasted).1.actions.len() == 0,
        on_message(node, sender, msg, broadcasted).1.next == NextView::Wait,
{
}

} // verus!
