//! What holds of a node whatever reaches it, and of two nodes that talk to each
//! other.

use vstd::prelude::*;
use crate::aliases::{lists, put_all};
use crate::codec::encode;
use crate::codec_laws::law_decode_encode;
use crate::display::display_bytes;
use crate::model::{
    can_handle, connect, forget, fresh, is_authorized, network_description, on_admission,
    on_closing, on_content, on_departure, on_greeting, on_input, on_keepers, on_message, on_nearest,
    on_network_event, on_received, on_user_command, republish_any, tell, wants_upgrade,
    with_alias, NodeView, RepublishView,
};
use crate::protocol::{
    numbered_type, plain_message, state_message, type_number, AliasView, ControlMessageView,
    MessageType, NetworkStateView,
};
use crate::text::{at_or_after, with_text, without_text, Text};
use crate::turn::{
    done, ActionView, Input, NetworkEvent, NextView, QuestionView, TurnView, UserCommand,
};

verus! {

/// A message type is told apart from all others by its number.
pub proof fn law_type_numbers(message_type: MessageType)
    ensures
        numbered_type(type_number(message_type)) == Some(message_type),
{
}

/// A number that stands for a message type is the number of that type.
pub proof fn law_numbered_types(number: i32)
    ensures
        numbered_type(number) matches Some(message_type) ==> type_number(message_type) == number,
{
}

proof fn lemma_without(list: Seq<Text>, item: Text, other: Text)
    ensures
        !without_text(list, item).contains(item),
        other != item ==> (without_text(list, item).contains(other) <==> list.contains(other)),
        list.no_duplicates() ==> without_text(list, item).no_duplicates(),
    decreases list.len(),
{
    let keep = |t: Text| t != item;
    reveal(Seq::filter);
    if list.len() > 0 {
        let start = list.drop_last();
        let last = list.last();
        lemma_without(start, item, other);
        lemma_without(start, item, last);
        let kept = without_text(start, item);
        assert(list =~= start.push(last));
        assert(list.contains(other) <==> start.contains(other) || other == last) by {
            if start.contains(other) {
                let i = choose|i: int| 0 <= i < start.len() && start[i] == other;
                assert(list[i] == other);
            }
            assert(list[list.len() - 1] == last);
        }
        if last != item {
            let whole = without_text(list, item);
            assert(whole =~= kept.push(last));
            if kept.contains(other) {
                let i = choose|i: int| 0 <= i < kept.len() && kept[i] == other;
                assert(whole[i] == other);
            }
            assert(whole[kept.len() as int] == last);
            if list.no_duplicates() {
                assert(start.no_duplicates());
                assert(!start.contains(last)) by {
                    if start.contains(last) {
                        let i = choose|i: int| 0 <= i < start.len() && start[i] == last;
                        assert(list[i] == list[list.len() - 1]);
                    }
                }
                assert forall|i: int, j: int|
                    0 <= i < whole.len() && 0 <= j < whole.len() && i != j implies whole[i]
                    != whole[j] by {
                    if i < kept.len() && j < kept.len() {
                        assert(kept[i] != kept[j]);
                    } else if i < kept.len() {
                        assert(kept.contains(kept[i]));
                    } else if j < kept.len() {
                        assert(kept.contains(kept[j]));
                    }
                }
            }
        } else {
            assert(without_text(list, item) =~= kept);
            if list.no_duplicates() {
                assert(start.no_duplicates());
            }
        }
    }
}

proof fn lemma_with(list: Seq<Text>, item: Text, other: Text)
    ensures
        with_text(list, item).contains(item),
        other != item ==> (with_text(list, item).contains(other) <==> list.contains(other)),
        list.no_duplicates() ==> with_text(list, item).no_duplicates(),
        with_text(with_text(list, item), item) == with_text(list, item),
{
    let whole = with_text(list, item);
    if !list.contains(item) {
        assert(whole[list.len() as int] == item);
        if list.contains(other) {
            let i = choose|i: int| 0 <= i < list.len() && list[i] == other;
            assert(whole[i] == other);
        }
    }
}

proof fn lemma_without_twice(list: Seq<Text>, item: Text)
    ensures
        without_text(without_text(list, item), item) == without_text(list, item),
    decreases list.len(),
{
    reveal(Seq::filter);
    if list.len() > 0 {
        let start = list.drop_last();
        lemma_without_twice(start, item);
        if list.last() != item {
            let kept = without_text(start, item);
            assert(kept.push(list.last()).drop_last() =~= kept);
        }
    }
}

/// Messages of a sender that the node does not listen to change nothing and have
/// nothing done, whatever the bytes are.
pub proof fn law_unauthorized_ignored(
    node: NodeView,
    sender: Text,
    data: Seq<u8>,
    broadcasted: bool,
)
    requires
        !is_authorized(node, sender),
    ensures
        on_received(node, sender, data, broadcasted).0 == node,
        on_received(node, sender, data, broadcasted).1 matches Ok(turn) ==> turn == done(seq![]),
{
}

/// The node listens to itself, whomever it has authorized.
pub proof fn law_own_messages_heard(node: NodeView)
    ensures
        is_authorized(node, node.local_id),
{
}

/// A node that has authorized nobody listens to everybody. When it authorizes a
/// first peer, it listens to that peer and to itself, and to nobody else.
pub proof fn law_first_authorization(node: NodeView, peer: String, sender: Text)
    requires
        node.authorized_senders.len() == 0,
    ensures
        is_authorized(node, sender),
        is_authorized(on_user_command(node, UserCommand::Authorize(peer)).0, sender) <==> (sender
            == peer@ || sender == node.local_id),
{
    let senders = node.authorized_senders.push(peer@);
    assert(senders[0] == peer@);
    assert(senders.contains(peer@));
}

/// Whatever comes, the node keeps its identity, its version and its port.
pub proof fn law_identity_kept(node: NodeView, input: Input)
    ensures
        on_input(node, input).0.local_id == node.local_id,
        on_input(node, input).0.version == node.version,
        on_input(node, input).0.upgrade_port == node.upgrade_port,
{
}

/// Nobody who was authorized is ever taken off the list: whatever comes, the
/// list stays a prefix of what it becomes.
pub proof fn law_authorizations_only_grow(node: NodeView, input: Input)
    ensures
        node.authorized_senders.is_prefix_of(on_input(node, input).0.authorized_senders),
{
    let next = on_input(node, input).0.authorized_senders;
    assert(node.authorized_senders =~= next.subrange(0, node.authorized_senders.len() as int));
}

/// Only a command of the user changes the alias of the node.
pub proof fn law_own_alias(node: NodeView, input: Input)
    ensures
        on_input(node, input).0.alias == (match input {
            Input::Command(UserCommand::Alias(alias)) => alias@,
            _ => node.alias,
        }),
{
}

/// A list in which nothing stands twice stays so, whatever comes.
pub proof fn law_lists_stay_distinct(node: NodeView, input: Input)
    requires
        crate::model::lists_distinct(node),
    ensures
        crate::model::lists_distinct(on_input(node, input).0),
{
    match input {
        Input::Event(NetworkEvent::PeerDiscovered { peer }) => {
            lemma_with(node.discovered_peers, peer@, peer@);
        },
        Input::Event(NetworkEvent::ConnectionEstablished { peer }) => {
            lemma_connect_distinct(node, peer@);
        },
        Input::Event(NetworkEvent::ConnectionRejected { peer }) => {
            lemma_with(node.rejected_peers, peer@, peer@);
        },
        Input::Event(NetworkEvent::PeerExpired { peer }) => {
            lemma_forget_distinct(node, peer@);
        },
        Input::Event(NetworkEvent::NewListenAddress { addr }) => {
            lemma_with(node.listening_addrs, addr@, addr@);
        },
        _ => {},
    }
}

/// A new node has lists in which nothing stands twice, and the answers to its
/// questions keep them so.
pub proof fn law_answers_keep_lists_distinct(
    node: NodeView,
    peer: Text,
    peers: Seq<Text>,
    closing: bool,
    handed: Option<RepublishView>,
)
    requires
        crate::model::lists_distinct(node),
    ensures
        crate::model::lists_distinct(fresh(node.local_id, node.version, node.upgrade_port)),
        crate::model::lists_distinct(on_greeting(node, peer, peers).0),
        crate::model::lists_distinct(on_closing(node, peer, peers).0),
        crate::model::lists_distinct(on_departure(node, peer, closing, handed).0),
{
    lemma_connect_distinct(node, peer);
    lemma_forget_distinct(node, peer);
}

/// The answers to its questions change nothing of a node but its lists of peers.
pub proof fn law_answers_change_peers_only(
    node: NodeView,
    peer: Text,
    peers: Seq<Text>,
    closing: bool,
    handed: Option<RepublishView>,
    next: NodeView,
)
    requires
        next == on_greeting(node, peer, peers).0 || next == on_closing(node, peer, peers).0 || next
            == on_departure(node, peer, closing, handed).0,
    ensures
        next == (NodeView {
            discovered_peers: next.discovered_peers,
            rejected_peers: next.rejected_peers,
            connected_peers: next.connected_peers,
            ..node
        }),
{
}

proof fn lemma_connect_distinct(node: NodeView, peer: Text)
    requires
        crate::model::lists_distinct(node),
    ensures
        crate::model::lists_distinct(connect(node, peer)),
{
    lemma_without(node.rejected_peers, peer, peer);
    lemma_with(node.connected_peers, peer, peer);
}

proof fn lemma_forget_distinct(node: NodeView, peer: Text)
    requires
        crate::model::lists_distinct(node),
    ensures
        crate::model::lists_distinct(forget(node, peer)),
{
    lemma_without(node.discovered_peers, peer, peer);
    lemma_without(node.rejected_peers, peer, peer);
    lemma_without(node.connected_peers, peer, peer);
}

/// Whether `peer` is connected and not rejected in `after`, and everything else
/// in the two lists is as in `before`.
pub open spec fn newly_connected(before: NodeView, after: NodeView, peer: Text) -> bool {
    &&& after.connected_peers.contains(peer)
    &&& !after.rejected_peers.contains(peer)
    &&& forall|other: Text|
        other != peer ==> (#[trigger] after.connected_peers.contains(other)
            <==> before.connected_peers.contains(other))
    &&& forall|other: Text|
        other != peer ==> (#[trigger] after.rejected_peers.contains(other)
            <==> before.rejected_peers.contains(other))
}

proof fn lemma_connected(node: NodeView, peer: Text)
    ensures
        newly_connected(node, connect(node, peer), peer),
{
    assert forall|other: Text| other != peer implies (#[trigger] connect(
        node,
        peer,
    ).connected_peers.contains(other) <==> node.connected_peers.contains(other)) by {
        lemma_with(node.connected_peers, peer, other);
    }
    assert forall|other: Text| other != peer implies (#[trigger] connect(
        node,
        peer,
    ).rejected_peers.contains(other) <==> node.rejected_peers.contains(other)) by {
        lemma_without(node.rejected_peers, peer, other);
    }
    lemma_with(node.connected_peers, peer, peer);
    lemma_without(node.rejected_peers, peer, peer);
}

/// A connection that is established ends with the peer connected and not
/// rejected, at once or when the whitelist is known, whatever it holds.
pub proof fn law_connection_established(node: NodeView, peer: String, whitelisted: Seq<Text>)
    ensures
        ({
            let (next, turn) = on_network_event(
                node,
                NetworkEvent::ConnectionEstablished { peer },
            );
            match turn.next {
                NextView::Wait => newly_connected(node, next, peer@),
                NextView::Ask(question) => question == (QuestionView::Greeting { peer: peer@ })
                    && newly_connected(node, on_greeting(next, peer@, whitelisted).0, peer@),
                NextView::Stop => false,
            }
        }),
{
    lemma_connected(node, peer@);
}

/// Whether `peer` stands in no list of peers in `after`, and everything else in
/// them is as in `before`.
pub open spec fn forgotten(before: NodeView, after: NodeView, peer: Text) -> bool {
    &&& !after.discovered_peers.contains(peer)
    &&& !after.rejected_peers.contains(peer)
    &&& !after.connected_peers.contains(peer)
    &&& forall|other: Text|
        other != peer ==> (#[trigger] after.discovered_peers.contains(other)
            <==> before.discovered_peers.contains(other))
    &&& forall|other: Text|
        other != peer ==> (#[trigger] after.rejected_peers.contains(other)
            <==> before.rejected_peers.contains(other))
    &&& forall|other: Text|
        other != peer ==> (#[trigger] after.connected_peers.contains(other)
            <==> before.connected_peers.contains(other))
}

proof fn lemma_forgotten(node: NodeView, peer: Text)
    ensures
        forgotten(node, forget(node, peer), peer),
{
    let after = forget(node, peer);
    assert forall|other: Text| other != peer implies (#[trigger] after.discovered_peers.contains(
        other,
    ) <==> node.discovered_peers.contains(other)) by {
        lemma_without(node.discovered_peers, peer, other);
    }
    assert forall|other: Text| other != peer implies (#[trigger] after.rejected_peers.contains(
        other,
    ) <==> node.rejected_peers.contains(other)) by {
        lemma_without(node.rejected_peers, peer, other);
    }
    assert forall|other: Text| other != peer implies (#[trigger] after.connected_peers.contains(
        other,
    ) <==> node.connected_peers.contains(other)) by {
        lemma_without(node.connected_peers, peer, other);
    }
    lemma_without(node.discovered_peers, peer, peer);
    lemma_without(node.rejected_peers, peer, peer);
    lemma_without(node.connected_peers, peer, peer);
}

/// A peer that expires is forgotten.
pub proof fn law_expired_peer_forgotten(node: NodeView, peer: String)
    ensures
        forgotten(node, on_network_event(node, NetworkEvent::PeerExpired { peer }).0, peer@),
{
    lemma_forgotten(node, peer@);
}

/// A connection that is closed ends with the peer forgotten, whoever is online
/// and whatever is handed on.
pub proof fn law_closed_peer_forgotten(
    node: NodeView,
    peer: Text,
    online: Seq<Text>,
    handed: Option<RepublishView>,
)
    ensures
        ({
            let (next, turn) = on_closing(node, peer, online);
            match turn.next {
                NextView::Wait => forgotten(node, next, peer),
                NextView::Ask(question) => question == (QuestionView::Departure {
                    peer,
                    closing: true,
                }) && forgotten(node, on_departure(next, peer, true, handed).0, peer),
                NextView::Stop => false,
            }
        }),
{
    lemma_forgotten(node, peer);
}

/// An event that comes a second time in a row changes nothing, and has the same
/// done again.
pub proof fn law_repeated_event(node: NodeView, event: NetworkEvent)
    ensures
        on_network_event(on_network_event(node, event).0, event) == on_network_event(node, event),
{
    match event {
        NetworkEvent::PeerDiscovered { peer } => {
            lemma_with(node.discovered_peers, peer@, peer@);
        },
        NetworkEvent::ConnectionEstablished { peer } => {
            lemma_with(node.connected_peers, peer@, peer@);
            lemma_without_twice(node.rejected_peers, peer@);
        },
        NetworkEvent::ConnectionRejected { peer } => {
            lemma_with(node.rejected_peers, peer@, peer@);
        },
        NetworkEvent::PeerExpired { peer } => {
            lemma_without_twice(node.discovered_peers, peer@);
            lemma_without_twice(node.rejected_peers, peer@);
            lemma_without_twice(node.connected_peers, peer@);
        },
        NetworkEvent::NewListenAddress { addr } => {
            lemma_with(node.listening_addrs, addr@, addr@);
        },
        _ => {},
    }
}

/// Once a node has asked for a program it never asks again, whatever versions it
/// is told of, nor does it offer its own.
pub proof fn law_upgrade_asked_once(
    node: NodeView,
    input: Input,
    sender: Text,
    payload: Text,
    broadcasted: bool,
)
    requires
        node.upgrade_in_progress,
    ensures
        on_input(node, input).0.upgrade_in_progress,
        on_message(
            node,
            sender,
            plain_message(MessageType::NetworkBinaryVersion, payload),
            broadcasted,
        ) == (node, done(seq![])),
        on_message(
            node,
            sender,
            plain_message(MessageType::RequestUpgrade, payload),
            broadcasted,
        ) == (node, done(seq![])),
{
}

/// Every version is at or after itself, and of two versions one is at or after
/// the other.
pub proof fn law_versions_ordered(a: Text, b: Text)
    ensures
        at_or_after(a, a),
        at_or_after(a, b) || at_or_after(b, a),
        at_or_after(a, b) && at_or_after(b, a) ==> a == b,
    decreases a.len(),
{
    if a.len() > 0 {
        law_versions_ordered(a.drop_first(), b.drop_first());
        if b.len() > 0 && a[0] == b[0] && a.drop_first() == b.drop_first() {
            assert(a =~= seq![a[0]] + a.drop_first());
            assert(b =~= seq![b[0]] + b.drop_first());
        }
    } else if b.len() == 0 {
        assert(a =~= b);
    }
}

/// Two nodes that have a version never want each other's program both.
pub proof fn law_not_both_upgrade(first: NodeView, second: NodeView)
    requires
        first.version is Some,
        second.version is Some,
    ensures
        !(wants_upgrade(first, second.version->0) && wants_upgrade(second, first.version->0)),
{
    law_versions_ordered(first.version->0, second.version->0);
}

/// An alias that is taken stays with the peer that has it.
pub proof fn law_taken_alias_kept(aliases: Map<Text, Text>, alias: Text, sender: Text)
    requires
        aliases.contains_key(alias),
    ensures
        with_alias(aliases, alias, sender) == aliases,
{
}

/// An alias that is free goes to the sender, which then has this alias and no
/// other. Every entry of another peer is as before.
pub proof fn law_free_alias_given(
    aliases: Map<Text, Text>,
    alias: Text,
    sender: Text,
    name: Text,
    peer: Text,
)
    requires
        !aliases.contains_key(alias),
    ensures
        stands_for(with_alias(aliases, alias, sender), name, sender) <==> name == alias,
        peer != sender ==> (stands_for(with_alias(aliases, alias, sender), name, peer)
            <==> stands_for(aliases, name, peer)),
{
}

/// Whether `name` is an alias of `peer`.
pub open spec fn stands_for(aliases: Map<Text, Text>, name: Text, peer: Text) -> bool {
    aliases.contains_key(name) && aliases[name] == peer
}

/// Where no peer has two aliases, none has two when one more was asked for.
pub proof fn law_one_alias_each(aliases: Map<Text, Text>, alias: Text, sender: Text)
    requires
        aliases.is_injective(),
    ensures
        with_alias(aliases, alias, sender).is_injective(),
{
    let next = with_alias(aliases, alias, sender);
    assert forall|x: Text, y: Text|
        x != y && next.dom().contains(x) && next.dom().contains(y) implies #[trigger] next[x]
        != #[trigger] next[y] by {
        if !aliases.contains_key(alias) && x != alias && y != alias {
            assert(aliases[x] != aliases[y]);
        }
    }
}

/// A node that is reported offline while it is not tells the network so.
pub proof fn law_false_report_contradicted(
    node: NodeView,
    sender: Text,
    msg: ControlMessageView,
    broadcasted: bool,
)
    requires
        is_authorized(node, sender),
        numbered_type(msg.message_type) == Some(MessageType::PeerDisconnected),
        msg.payload == node.local_id,
    ensures
        on_message(node, sender, msg, broadcasted) == (
            node,
            done(seq![tell(MessageType::PeerConnected, node.local_id, None)]),
        ),
{
}

/// The bytes of a message are handled as that message by whoever receives them.
pub proof fn law_sent_is_received(
    node: NodeView,
    sender: Text,
    msg: ControlMessageView,
    broadcasted: bool,
)
    requires
        encode(msg).len() <= u64::MAX,
        can_handle(node, sender, msg),
    ensures
        ({
            let (next, turn) = on_message(node, sender, msg, broadcasted);
            on_received(node, sender, encode(msg), broadcasted) == (
                next,
                Ok::<TurnView, crate::turn::ReceiveError>(turn),
            )
        }),
{
    law_decode_encode(msg);
}

/// What the user sends to one peer is shown by that peer, if it listens to the
/// node; nothing else is done there.
pub proof fn law_message_shown(node: NodeView, receiver: NodeView, peer: String, message: String)
    requires
        is_authorized(receiver, node.local_id),
        encode(plain_message(MessageType::DisplayMessage, message@)).len() <= u64::MAX,
    ensures
        ({
            let turn = on_user_command(
                node,
                UserCommand::SendMsg { peer: Some(peer), message },
            ).1;
            &&& turn.actions.len() == 1
            &&& turn.actions[0] matches ActionView::Transmit { target, data } && target == Some(
                peer@,
            ) && on_received(receiver, node.local_id, data, false) == (
                receiver,
                Ok::<TurnView, crate::turn::ReceiveError>(
                    done(seq![ActionView::Display(message@)]),
                ),
            )
        }),
{
    let msg = plain_message(MessageType::DisplayMessage, message@);
    law_sent_is_received(receiver, node.local_id, msg, false);
    assert(Seq::<ActionView>::empty() + seq![ActionView::Display(message@)] =~= seq![
        ActionView::Display(message@),
    ]);
}

/// What the user sends to all is kept by the node, and shown and kept by every
/// peer that listens to it.
pub proof fn law_broadcast_shown(node: NodeView, receiver: NodeView, message: String)
    requires
        is_authorized(receiver, node.local_id),
        encode(plain_message(MessageType::DisplayMessage, message@)).len() <= u64::MAX,
    ensures
        ({
            let turn = on_user_command(node, UserCommand::SendMsg { peer: None, message }).1;
            &&& turn.actions.len() == 2
            &&& turn.actions[0] == ActionView::StoreBroadcast(message@)
            &&& turn.actions[1] matches ActionView::Transmit { target, data } && target is None
                && on_received(receiver, node.local_id, data, true) == (
                receiver,
                Ok::<TurnView, crate::turn::ReceiveError>(
                    done(
                        seq![
                            ActionView::StoreBroadcast(message@),
                            ActionView::Display(message@),
                        ],
                    ),
                ),
            )
        }),
{
    let msg = plain_message(MessageType::DisplayMessage, message@);
    law_sent_is_received(receiver, node.local_id, msg, true);
    assert(seq![ActionView::StoreBroadcast(message@)] + seq![ActionView::Display(message@)]
        =~= seq![ActionView::StoreBroadcast(message@), ActionView::Display(message@)]);
}

pub(crate) proof fn lemma_put_all_union(table: Map<Text, Text>, list: Seq<AliasView>)
    ensures
        put_all(table, list) == table.union_prefer_right(put_all(Map::empty(), list)),
    decreases list.len(),
{
    if list.len() > 0 {
        lemma_put_all_union(table, list.drop_last());
    }
    assert(put_all(table, list) =~= table.union_prefer_right(put_all(Map::empty(), list)));
}

/// A node that asks another for the state of the network comes to know whom that
/// one listens to and all its aliases, in whatever order they are told. An alias
/// that both have then stands for what the other says.
pub proof fn law_state_is_shared(
    node: NodeView,
    asker: NodeView,
    online: Seq<Text>,
    whitelisted: Seq<Text>,
    aliases: Seq<AliasView>,
)
    requires
        lists(aliases, node.aliases),
        is_authorized(asker, node.local_id),
        encode(
            state_message(
                NetworkStateView {
                    whitelisted,
                    connected: online,
                    whitelisted_sender: node.authorized_senders,
                    aliases,
                },
            ),
        ).len() <= u64::MAX,
    ensures
        ({
            let turn = network_description(node, asker.local_id, online, whitelisted, aliases);
            &&& turn.actions.len() == 1
            &&& turn.actions[0] matches ActionView::Transmit { target, data } && target == Some(
                asker.local_id,
            ) && on_received(asker, node.local_id, data, false).0 == (NodeView {
                authorized_senders: asker.authorized_senders + node.authorized_senders,
                aliases: asker.aliases.union_prefer_right(node.aliases),
                ..asker
            })
        }),
{
    let state = NetworkStateView {
        whitelisted,
        connected: online,
        whitelisted_sender: node.authorized_senders,
        aliases,
    };
    law_sent_is_received(asker, node.local_id, state_message(state), false);
    lemma_put_all_union(asker.aliases, aliases);
}

/// Whether an action that transmits bytes transmits a message that a node can
/// handle.
pub open spec fn understandable(action: ActionView) -> bool {
    action matches ActionView::Transmit { data, .. } ==> exists|msg: ControlMessageView|
        #![trigger encode(msg)]
        {
            &&& data == encode(msg)
            &&& numbered_type(msg.message_type) is Some
            &&& numbered_type(msg.message_type) == Some(MessageType::State) ==> msg.state is Some
        }
}

/// Whether all actions are understandable.
pub open spec fn all_understandable(actions: Seq<ActionView>) -> bool {
    forall|i: int| 0 <= i < actions.len() ==> understandable(#[trigger] actions[i])
}

/// No node refuses bytes that are understandable.
pub proof fn law_understandable_is_handled(
    node: NodeView,
    sender: Text,
    action: ActionView,
    broadcasted: bool,
)
    requires
        understandable(action),
        action matches ActionView::Transmit { data, .. } && data.len() <= u64::MAX,
    ensures
        action matches ActionView::Transmit { data, .. } && on_received(
            node,
            sender,
            data,
            broadcasted,
        ).1 is Ok,
{
    let data = action->Transmit_data;
    let msg = choose|msg: ControlMessageView|
        #![trigger encode(msg)]
        {
            &&& data == encode(msg)
            &&& numbered_type(msg.message_type) is Some
            &&& numbered_type(msg.message_type) == Some(MessageType::State) ==> msg.state is Some
        };
    law_sent_is_received(node, sender, msg, broadcasted);
}

/// Whatever comes, all that a node transmits is understandable.
pub proof fn law_turns_understandable(node: NodeView, input: Input)
    ensures
        on_input(node, input).1 matches Ok(turn) ==> all_understandable(turn.actions),
{
}

/// Whatever the answers to its questions are, all that a node transmits is
/// understandable.
pub proof fn law_answers_understandable(
    node: NodeView,
    peer: Text,
    message: Text,
    peers: Seq<Text>,
    more: Seq<Text>,
    aliases: Seq<AliasView>,
    closing: bool,
    handed: Option<RepublishView>,
    content: Option<Text>,
)
    ensures
        all_understandable(on_greeting(node, peer, peers).1.actions),
        all_understandable(on_closing(node, peer, peers).1.actions),
        all_understandable(on_departure(node, peer, closing, handed).1.actions),
        all_understandable(republish_any(handed)),
        all_understandable(on_admission(node, peer, peers).actions),
        all_understandable(on_keepers(node, peer, message, peers)),
        all_understandable(on_content(peer, content).actions),
        all_understandable(on_nearest(node, peers).actions),
        all_understandable(network_description(node, peer, peers, more, aliases).actions),
{
}

/// The bytes for the display are ASCII codes and end in zero; a text that is all
/// ASCII comes out whole.
pub proof fn law_display_bytes(data: Text)
    ensures
        display_bytes(data).len() >= 1,
        display_bytes(data).last() == 0,
        forall|i: int| 0 <= i < display_bytes(data).len() ==> #[trigger] display_bytes(data)[i] < 0x80,
        (forall|i: int| 0 <= i < data.len() ==> (#[trigger] data[i] as u32) < 0x80)
            ==> display_bytes(data) == data.map_values(|c: char| c as u8).push(0u8),
{
    let keep = |c: char| (c as u32) < 0x80;
    let kept = data.filter(keep);
    assert forall|i: int| 0 <= i < display_bytes(data).len() implies #[trigger] display_bytes(
        data,
    )[i] < 0x80 by {
        if i < kept.len() {
            data.lemma_filter_pred(keep, i);
            let c = kept[i];
            assert(keep(c));
            lemma_ascii_byte(c);
        }
    }
    if forall|i: int| 0 <= i < data.len() ==> (#[trigger] data[i] as u32) < 0x80 {
        lemma_keep_all(data);
    }
}

proof fn lemma_ascii_byte(c: char)
    requires
        (c as u32) < 0x80,
    ensures
        (c as u8) < 0x80,
{
}

proof fn lemma_keep_all(data: Text)
    requires
        forall|i: int| 0 <= i < data.len() ==> (#[trigger] data[i] as u32) < 0x80,
    ensures
        data.filter(|c: char| (c as u32) < 0x80) == data,
    decreases data.len(),
{
    reveal(Seq::filter);
    if data.len() > 0 {
        let start = data.drop_last();
        assert forall|i: int| 0 <= i < start.len() implies (#[trigger] start[i] as u32) < 0x80 by {
            assert(start[i] == data[i]);
        }
        lemma_keep_all(start);
        assert(start.push(data.last()) =~= data);
    }
}

} // verus!
