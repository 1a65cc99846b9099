//! What each event, command and answer has a node do, whatever the node knows.

use vstd::prelude::*;
use crate::aliases::{lemma_table_pairs, lists};
use crate::codec::{decode, encode};
use crate::codec_laws::law_decode_encode;
use crate::message_laws::{
    asks_to_keep, lemma_asks_to_keep, lemma_tells, tells,
};
use crate::model::{
    arrival_view, departure_view, farewell, fresh, network_description, on_admission, on_closing,
    on_content, on_departure, on_greeting, on_keepers, on_nearest, on_network_event,
    on_user_command, republish_any, whitelisting, NodeView, RepublishView,
};
use crate::protocol::{
    numbered_type, state_message, AliasView, MessageType, NetworkStateView,
};
use crate::text::{optional_text, Text};
use crate::turn::{
    ActionView, NetworkEvent, NextView, QuestionView, ReplyView, TurnView, UserCommand,
};

verus! {

/// A new node knows nobody, has no alias and has asked for no program.
pub proof fn law_new_node(local_id: Text, version: Option<Text>, upgrade_port: Text)
    ensures
        ({
            let node = fresh(local_id, version, upgrade_port);
            &&& node.local_id == local_id
            &&& node.version == version
            &&& node.upgrade_port == upgrade_port
            &&& node.authorized_senders.len() == 0
            &&& node.aliases == Map::<Text, Text>::empty()
            &&& node.alias.len() == 0
            &&& node.discovered_peers.len() == 0
            &&& node.rejected_peers.len() == 0
            &&& node.connected_peers.len() == 0
            &&& node.listening_addrs.len() == 0
            &&& !node.upgrade_in_progress
        }),
{
}

/// Whether a turn has nothing done and waits for the next input.
pub open spec fn idle(turn: TurnView) -> bool {
    turn.actions.len() == 0 && turn.next == NextView::Wait
}

/// A peer that is discovered comes last in its list, unless it is there already;
/// nothing else changes or is done.
pub proof fn law_peer_discovered(node: NodeView, peer: String)
    ensures
        ({
            let (next, turn) = on_network_event(node, NetworkEvent::PeerDiscovered { peer });
            &&& next == (NodeView { discovered_peers: next.discovered_peers, ..node })
            &&& node.discovered_peers.contains(peer@) ==> next.discovered_peers
                == node.discovered_peers
            &&& !node.discovered_peers.contains(peer@) ==> next.discovered_peers
                == node.discovered_peers.push(peer@)
            &&& idle(turn)
        }),
{
}

/// A peer that is rejected comes last in its list, unless it is there already;
/// nothing else changes or is done.
pub proof fn law_connection_rejected(node: NodeView, peer: String)
    ensures
        ({
            let (next, turn) = on_network_event(node, NetworkEvent::ConnectionRejected { peer });
            &&& next == (NodeView { rejected_peers: next.rejected_peers, ..node })
            &&& node.rejected_peers.contains(peer@) ==> next.rejected_peers == node.rejected_peers
            &&& !node.rejected_peers.contains(peer@) ==> next.rejected_peers
                == node.rejected_peers.push(peer@)
            &&& idle(turn)
        }),
{
}

/// An address comes last in its list, unless it is there already; nothing else
/// changes or is done.
pub proof fn law_new_listen_address(node: NodeView, addr: String)
    ensures
        ({
            let (next, turn) = on_network_event(node, NetworkEvent::NewListenAddress { addr });
            &&& next == (NodeView { listening_addrs: next.listening_addrs, ..node })
            &&& node.listening_addrs.contains(addr@) ==> next.listening_addrs
                == node.listening_addrs
            &&& !node.listening_addrs.contains(addr@) ==> next.listening_addrs
                == node.listening_addrs.push(addr@)
            &&& idle(turn)
        }),
{
}

/// Whether `after` is `before` with every occurrence of `peer` taken out of the
/// three lists of peers, the rest in the same order.
pub open spec fn peer_taken_out(before: NodeView, after: NodeView, peer: Text) -> bool {
    &&& after == (NodeView {
        discovered_peers: after.discovered_peers,
        rejected_peers: after.rejected_peers,
        connected_peers: after.connected_peers,
        ..before
    })
    &&& after.discovered_peers == before.discovered_peers.filter(|p: Text| p != peer)
    &&& after.rejected_peers == before.rejected_peers.filter(|p: Text| p != peer)
    &&& after.connected_peers == before.connected_peers.filter(|p: Text| p != peer)
}

/// A peer that expires leaves the lists of peers; nothing else changes or is done.
pub proof fn law_peer_expired(node: NodeView, peer: String)
    ensures
        ({
            let (next, turn) = on_network_event(node, NetworkEvent::PeerExpired { peer });
            peer_taken_out(node, next, peer@) && idle(turn)
        }),
{
}

/// Whether `after` is `before` with every occurrence of `peer` taken out of the
/// rejected peers, and `peer` put behind the connected ones unless it was there.
pub open spec fn peer_put_in(before: NodeView, after: NodeView, peer: Text) -> bool {
    &&& after == (NodeView {
        rejected_peers: after.rejected_peers,
        connected_peers: after.connected_peers,
        ..before
    })
    &&& after.rejected_peers == before.rejected_peers.filter(|p: Text| p != peer)
    &&& before.connected_peers.contains(peer) ==> after.connected_peers
        == before.connected_peers
    &&& !before.connected_peers.contains(peer) ==> after.connected_peers
        == before.connected_peers.push(peer)
}

/// What a connection has done in all, and what the node is then: at once, or when
/// the whitelist is known that the node asks for.
pub open spec fn whole_connection(node: NodeView, peer: String, whitelisted: Seq<Text>) -> (
    NodeView,
    Seq<ActionView>,
) {
    let (next, turn) = on_network_event(node, NetworkEvent::ConnectionEstablished { peer });
    match turn.next {
        NextView::Ask(_) => {
            let (last, more) = on_greeting(next, peer@, whitelisted);
            (last, turn.actions + more.actions)
        },
        _ => (next, turn.actions),
    }
}

/// Whether `actions` are what a node has done on a connection, from the action at
/// `start` on. Where it enters the network, it tells all that it is online and
/// asks the peer for the state of the network. It tells the peer its alias and
/// its version, where it has them.
pub open spec fn presents(
    actions: Seq<ActionView>,
    start: int,
    node: NodeView,
    peer: Text,
    enters: bool,
) -> bool {
    let entered = start + if enters {
        2int
    } else {
        0
    };
    let named = entered + if node.alias.len() > 0 {
        1int
    } else {
        0
    };
    &&& enters ==> tells(actions[start], None, MessageType::PeerConnected, node.local_id)
    &&& enters ==> tells(
        actions[start + 1],
        Some(peer),
        MessageType::NetworkSolicitation,
        Seq::empty(),
    )
    &&& node.alias.len() > 0 ==> tells(
        actions[entered],
        Some(peer),
        MessageType::PublishAlias,
        node.alias,
    )
    &&& node.version matches Some(version) ==> tells(
        actions[named],
        Some(peer),
        MessageType::NetworkBinaryVersion,
        version,
    )
    &&& actions.len() == named + if node.version is Some {
        1int
    } else {
        0
    }
}

/// A connection takes the peer off the rejected ones and puts it last among the
/// connected ones, unless it is there already. The node waits first. It enters the
/// network where it was connected to nobody and nobody is whitelisted, and only a
/// node that was connected to nobody asks for the whitelist.
pub proof fn law_connection(node: NodeView, peer: String, whitelisted: Seq<Text>)
    ensures
        ({
            let (next, actions) = whole_connection(node, peer, whitelisted);
            let (_, turn) = on_network_event(node, NetworkEvent::ConnectionEstablished { peer });
            &&& peer_put_in(node, next, peer@)
            &&& actions[0] == ActionView::Pause(500)
            &&& presents(
                actions,
                1,
                node,
                peer@,
                node.connected_peers.len() == 0 && whitelisted.len() == 0,
            )
            &&& turn.next == if node.connected_peers.len() == 0 {
                NextView::Ask(QuestionView::Greeting { peer: peer@ })
            } else {
                NextView::Wait
            }
        }),
{
    lemma_tells();
}

/// With the whitelist known, a node that was waiting for it is connected to the
/// peer, and enters the network where nobody is whitelisted.
pub proof fn law_greeting(node: NodeView, peer: Text, whitelisted: Seq<Text>)
    ensures
        ({
            let (next, turn) = on_greeting(node, peer, whitelisted);
            &&& peer_put_in(node, next, peer)
            &&& turn.next == NextView::Wait
            &&& presents(turn.actions, 0, node, peer, whitelisted.len() == 0)
        }),
{
    lemma_tells();
}

/// A node whose connection is closed looks up who is online.
pub proof fn law_connection_closed(node: NodeView, peer: String)
    ensures
        ({
            let (next, turn) = on_network_event(node, NetworkEvent::ConnectionClosed { peer });
            &&& next == node
            &&& turn.actions.len() == 0
            &&& turn.next == NextView::Ask(QuestionView::Closing { peer: peer@ })
        }),
{
}

/// A peer that was not online just leaves the lists. One that was is reported to
/// the whole network, and the distributed table hands on what it kept, before it
/// leaves the lists. Where it is the node itself, the report is contradicted.
pub proof fn law_closing(node: NodeView, peer: Text, online: Seq<Text>)
    ensures
        ({
            let (next, turn) = on_closing(node, peer, online);
            &&& !online.contains(peer) ==> peer_taken_out(node, next, peer) && idle(turn)
            &&& online.contains(peer) ==> tells(
                turn.actions[0],
                None,
                MessageType::PeerDisconnected,
                peer,
            )
            &&& online.contains(peer) && peer == node.local_id ==> {
                &&& peer_taken_out(node, next, peer)
                &&& turn.actions.len() == 2
                &&& tells(turn.actions[1], None, MessageType::PeerConnected, node.local_id)
                &&& turn.next == NextView::Wait
            }
            &&& online.contains(peer) && peer != node.local_id ==> {
                &&& next == node
                &&& turn.actions.len() == 1
                &&& turn.next == NextView::Ask(QuestionView::Departure { peer, closing: true })
            }
        }),
{
    lemma_tells();
}

/// Whether `actions` ask the target, for each piece that is handed on and in
/// order, to keep it for its receiver; there are none where nothing is handed on.
pub open spec fn hands_on(actions: Seq<ActionView>, handed: Option<RepublishView>) -> bool {
    match handed {
        None => actions.len() == 0,
        Some(handed) => {
            &&& actions.len() == handed.content.len()
            &&& forall|i: int|
                0 <= i < actions.len() ==> asks_to_keep(
                    #[trigger] actions[i],
                    handed.target,
                    handed.content[i].receiver,
                    handed.content[i].data,
                )
        },
    }
}

/// All that is handed on when a peer comes or goes is passed to the target.
pub proof fn law_handed_on(handed: Option<RepublishView>)
    ensures
        hands_on(republish_any(handed), handed),
{
    if let Some(pieces) = handed {
        let actions = republish_any(handed);
        assert forall|i: int| 0 <= i < actions.len() implies asks_to_keep(
            #[trigger] actions[i],
            pieces.target,
            pieces.content[i].receiver,
            pieces.content[i].data,
        ) by {
            lemma_asks_to_keep(pieces.content[i].receiver, pieces.content[i].data, pieces.target);
        }
    }
}

/// When a peer has gone, all that is handed on is passed to the target; the peer
/// leaves the lists of peers where its connection was closed, and only then.
pub proof fn law_departure(
    node: NodeView,
    peer: Text,
    closing: bool,
    handed: Option<RepublishView>,
)
    ensures
        ({
            let (next, turn) = on_departure(node, peer, closing, handed);
            &&& closing ==> peer_taken_out(node, next, peer)
            &&& !closing ==> next == node
            &&& turn.next == NextView::Wait
            &&& hands_on(turn.actions, handed)
        }),
{
    law_handed_on(handed);
}

/// What is handed on when a peer comes is each piece, in order, for its receiver
/// or for all.
pub proof fn law_arrival_pieces(target: String, content: Vec<(Option<String>, String)>)
    ensures
        arrival_view(None) is None,
        arrival_view(Some((target, content))) matches Some(handed) && {
            &&& handed.target == target@
            &&& handed.content.len() == content@.len()
            &&& forall|i: int|
                0 <= i < content@.len() ==> (#[trigger] handed.content[i]).receiver
                    == optional_text(content@[i].0) && handed.content[i].data == content@[i].1@
        },
{
}

/// What is handed on when a peer goes is each piece, in order, for its receiver.
pub proof fn law_departure_pieces(target: String, content: Vec<(String, String)>)
    ensures
        departure_view(None) is None,
        departure_view(Some((target, content))) matches Some(handed) && {
            &&& handed.target == target@
            &&& handed.content.len() == content@.len()
            &&& forall|i: int|
                0 <= i < content@.len() ==> (#[trigger] handed.content[i]).receiver == Some(
                    content@[i].0@,
                ) && handed.content[i].data == content@[i].1@
        },
{
}

/// A message of the user to all is kept for all and told to the whole network.
pub proof fn law_send_to_all(node: NodeView, message: String)
    ensures
        ({
            let (next, turn) = on_user_command(
                node,
                UserCommand::SendMsg { peer: None, message },
            );
            &&& next == node
            &&& turn.next == NextView::Wait
            &&& turn.actions.len() == 2
            &&& turn.actions[0] == ActionView::StoreBroadcast(message@)
            &&& tells(turn.actions[1], None, MessageType::DisplayMessage, message@)
        }),
{
    lemma_tells();
}

/// A message of the user to one peer is told to that peer, and always has the
/// node look for those that are to keep it.
pub proof fn law_send_to_peer(node: NodeView, peer: String, message: String)
    ensures
        ({
            let (next, turn) = on_user_command(
                node,
                UserCommand::SendMsg { peer: Some(peer), message },
            );
            &&& next == node
            &&& turn.actions.len() == 1
            &&& tells(turn.actions[0], Some(peer@), MessageType::DisplayMessage, message@)
            &&& turn.next == NextView::Ask(
                QuestionView::Keepers { peer: peer@, message: message@ },
            )
        }),
{
    lemma_tells();
}

/// Each of the closest peers, in order, comes to keep the message for the
/// receiver: the node itself keeps it, and every other one is asked to.
pub proof fn law_keepers(node: NodeView, peer: Text, message: Text, closest: Seq<Text>)
    ensures
        ({
            let actions = on_keepers(node, peer, message, closest);
            &&& actions.len() == closest.len()
            &&& forall|i: int|
                0 <= i < closest.len() && closest[i] == node.local_id ==> #[trigger] actions[i]
                    == (ActionView::Store { receiver: peer, data: message })
            &&& forall|i: int|
                0 <= i < closest.len() && closest[i] != node.local_id ==> asks_to_keep(
                    #[trigger] actions[i],
                    closest[i],
                    Some(peer),
                    message,
                )
        }),
{
    let actions = on_keepers(node, peer, message, closest);
    assert forall|i: int| 0 <= i < closest.len() && closest[i] != node.local_id implies asks_to_keep(
        #[trigger] actions[i],
        closest[i],
        Some(peer),
        message,
    ) by {
        lemma_asks_to_keep(Some(peer), message, closest[i]);
    }
}

/// A peer that the user wants whitelisted has the node look up the whitelist.
pub proof fn law_whitelist(node: NodeView, peer: String)
    ensures
        ({
            let (next, turn) = on_user_command(node, UserCommand::Whitelist(peer));
            &&& next == node
            &&& turn.actions.len() == 0
            &&& turn.next == NextView::Ask(QuestionView::Admission { peer: peer@ })
        }),
{
}

/// Whether `actions` have `peer` whitelisted everywhere: the node itself first and
/// then the peer at its own network layer, and after a while the whole network is
/// told; then the node waits once more.
pub open spec fn admits(actions: Seq<ActionView>, node: NodeView, peer: Text) -> bool {
    &&& actions.len() == 5
    &&& actions[0] == ActionView::AddWhitelisted(node.local_id)
    &&& actions[1] == ActionView::AddWhitelisted(peer)
    &&& actions[2] == ActionView::Pause(200)
    &&& tells(actions[3], None, MessageType::AddWhitelistPeer, peer)
    &&& actions[4] == ActionView::Pause(200)
}

/// A peer that stands in the whitelist already has nothing done; any other is
/// whitelisted everywhere.
pub proof fn law_admission(node: NodeView, peer: Text, whitelisted: Seq<Text>)
    ensures
        admits(whitelisting(node, peer), node, peer),
        whitelisted.contains(peer) ==> idle(on_admission(node, peer, whitelisted)),
        !whitelisted.contains(peer) ==> admits(
            on_admission(node, peer, whitelisted).actions,
            node,
            peer,
        ) && on_admission(node, peer, whitelisted).next == NextView::Wait,
{
    lemma_tells();
}

/// A peer that the user authorizes comes last in the list of authorized senders,
/// and the whole network is told.
pub proof fn law_authorize(node: NodeView, peer: String)
    ensures
        ({
            let (next, turn) = on_user_command(node, UserCommand::Authorize(peer));
            &&& next == (NodeView { authorized_senders: next.authorized_senders, ..node })
            &&& next.authorized_senders == node.authorized_senders.push(peer@)
            &&& turn.next == NextView::Wait
            &&& turn.actions.len() == 1
            &&& tells(turn.actions[0], None, MessageType::AddWhitelistSender, peer@)
        }),
{
    lemma_tells();
}

/// The alias that the user gives the node is the node's alias, and the whole
/// network is told.
pub proof fn law_alias(node: NodeView, alias: String)
    ensures
        ({
            let (next, turn) = on_user_command(node, UserCommand::Alias(alias));
            &&& next == (NodeView { alias: next.alias, ..node })
            &&& next.alias == alias@
            &&& turn.next == NextView::Wait
            &&& turn.actions.len() == 1
            &&& tells(turn.actions[0], None, MessageType::PublishAlias, alias@)
        }),
{
    lemma_tells();
}

/// The user can have the node install a program, offer one to a peer or, where no
/// peer is named, to the whole network, and serve a file or stop serving it. None
/// of these changes what the node knows.
pub proof fn law_program_commands(node: NodeView, peer: String, addr: String)
    ensures
        ({
            let (next, turn) = on_user_command(node, UserCommand::UpgradeSelf(addr));
            &&& next == node
            &&& turn.next == NextView::Wait
            &&& turn.actions.len() == 1
            &&& turn.actions[0] == ActionView::UpgradeBinary(addr@)
        }),
        ({
            let (next, turn) = on_user_command(node, UserCommand::Upgrade(peer, addr));
            &&& next == node
            &&& turn.next == NextView::Wait
            &&& turn.actions.len() == 1
            &&& peer@.len() == 0 ==> tells(turn.actions[0], None, MessageType::Upgrade, addr@)
            &&& peer@.len() > 0 ==> tells(
                turn.actions[0],
                Some(peer@),
                MessageType::Upgrade,
                addr@,
            )
        }),
        ({
            let (next, turn) = on_user_command(node, UserCommand::Serve(addr));
            &&& next == node
            &&& turn.next == NextView::Wait
            &&& turn.actions.len() == 1
            &&& turn.actions[0] == ActionView::Serve(addr@)
        }),
        ({
            let (next, turn) = on_user_command(node, UserCommand::ServeStop);
            &&& next == node
            &&& turn.next == NextView::Wait
            &&& turn.actions.len() == 1
            &&& turn.actions[0] == ActionView::StopServing
        }),
{
    lemma_tells();
}

/// Whether a command has the node tell `reply` and changes nothing.
pub open spec fn replies(node: NodeView, command: UserCommand, reply: ReplyView) -> bool {
    let (next, turn) = on_user_command(node, command);
    &&& next == node
    &&& turn.next == NextView::Wait
    &&& turn.actions.len() == 1
    &&& turn.actions[0] == ActionView::Answer(reply)
}

/// The user is told what the node knows; its identity is asked for.
pub proof fn law_queries(node: NodeView)
    ensures
        replies(node, UserCommand::GetAlias, ReplyView::Text(node.alias)),
        replies(node, UserCommand::GetAliases, ReplyView::Aliases(node.aliases)),
        replies(node, UserCommand::GetDiscovered, ReplyView::Peers(node.discovered_peers)),
        replies(node, UserCommand::GetConnected, ReplyView::Peers(node.connected_peers)),
        replies(node, UserCommand::GetRejected, ReplyView::Peers(node.rejected_peers)),
        on_user_command(node, UserCommand::GetPeerId).0 == node,
        on_user_command(node, UserCommand::GetPeerId).1.actions.len() == 0,
        on_user_command(node, UserCommand::GetPeerId).1.next == NextView::Ask(
            QuestionView::PeerId,
        ),
{
}

/// An answer to the user is told and nothing else is done.
pub proof fn law_answer(reply: ReplyView)
    ensures
        crate::model::answer(reply).next == NextView::Wait,
        crate::model::answer(reply).actions.len() == 1,
        crate::model::answer(reply).actions[0] == ActionView::Answer(reply),
{
}

/// One who asks for the state of the network is told, in one message, who is
/// online, who is whitelisted, whom the node has authorized, and the entries of
/// the alias table.
pub proof fn law_description(
    node: NodeView,
    sender: Text,
    online: Seq<Text>,
    whitelisted: Seq<Text>,
    aliases: Seq<AliasView>,
)
    ensures
        ({
            let turn = network_description(node, sender, online, whitelisted, aliases);
            &&& turn.next == NextView::Wait
            &&& turn.actions.len() == 1
            &&& turn.actions[0] matches ActionView::Transmit { target, data }
            &&& target == Some(sender)
            &&& data.len() <= u64::MAX ==> {
                &&& decode(data) matches Some(msg)
                &&& numbered_type(msg.message_type) == Some(MessageType::State)
                &&& msg.message is None
                &&& msg.payload.len() == 0
                &&& msg.state matches Some(state)
                &&& state.connected == online
                &&& state.whitelisted == whitelisted
                &&& state.whitelisted_sender == node.authorized_senders
                &&& state.aliases == aliases
            }
        }),
{
    let msg = state_message(
        NetworkStateView {
            whitelisted,
            connected: online,
            whitelisted_sender: node.authorized_senders,
            aliases,
        },
    );
    if encode(msg).len() <= u64::MAX {
        law_decode_encode(msg);
    }
}

/// A list of entries is one of a table if and only if it has each entry of the
/// table once and no other.
pub proof fn law_entries(list: Seq<AliasView>, table: Map<Text, Text>)
    ensures
        lists(list, table) <==> {
            &&& forall|i: int, j: int|
                0 <= i < list.len() && 0 <= j < list.len() && i != j ==> (#[trigger] list[i]).peer
                    != (#[trigger] list[j]).peer
            &&& forall|i: int|
                0 <= i < list.len() ==> table.contains_key((#[trigger] list[i]).peer)
                    && table[list[i].peer] == list[i].alias
            &&& forall|name: Text| #[trigger]
                table.contains_key(name) ==> list.contains(
                    AliasView { peer: name, alias: table[name] },
                )
        },
{
    let made = crate::aliases::put_all(Map::<Text, Text>::empty(), list);
    if crate::aliases::distinct_keys(list) {
        lemma_table_pairs(list);
        assert forall|i: int| 0 <= i < list.len() implies made.contains_key(
            (#[trigger] list[i]).peer,
        ) && made[list[i].peer] == list[i].alias by {
            let pair = AliasView { peer: list[i].peer, alias: list[i].alias };
            assert(pair =~= list[i]);
            assert(list.contains(pair));
        }
        assert forall|name: Text| #[trigger] made.contains_key(name) implies list.contains(
            AliasView { peer: name, alias: made[name] },
        ) by {}
        if (forall|i: int|
            0 <= i < list.len() ==> table.contains_key((#[trigger] list[i]).peer)
                && table[list[i].peer] == list[i].alias) && (forall|name: Text| #[trigger]
            table.contains_key(name) ==> list.contains(
                AliasView { peer: name, alias: table[name] },
            )) {
            assert forall|name: Text| table.contains_key(name) <==> made.contains_key(name) by {
                if table.contains_key(name) {
                    let pair = AliasView { peer: name, alias: table[name] };
                    let i = choose|i: int| 0 <= i < list.len() && list[i] == pair;
                    assert(made.contains_key(list[i].peer));
                }
                if made.contains_key(name) {
                    let pair = AliasView { peer: name, alias: made[name] };
                    let i = choose|i: int| 0 <= i < list.len() && list[i] == pair;
                    assert(table.contains_key(list[i].peer));
                }
            }
            assert forall|name: Text| table.contains_key(name) implies table[name]
                == made[name] by {
                let pair = AliasView { peer: name, alias: table[name] };
                let i = choose|i: int| 0 <= i < list.len() && list[i] == pair;
                assert(made[list[i].peer] == list[i].alias);
            }
            assert(made =~= table);
        }
    }
}

/// What is kept for a receiver is told to the receiver, if anything is.
pub proof fn law_content(receiver: Text, content: Option<Text>)
    ensures
        ({
            let turn = on_content(receiver, content);
            &&& turn.next == NextView::Wait
            &&& content is None ==> turn.actions.len() == 0
            &&& content matches Some(text) ==> turn.actions.len() == 1 && tells(
                turn.actions[0],
                Some(receiver),
                MessageType::DisplayMessage,
                text,
            )
        }),
{
    lemma_tells();
}

/// The first of the closest peers is asked for what the node has missed, unless
/// there is none or it is the node itself.
pub proof fn law_nearest(node: NodeView, closest: Seq<Text>)
    ensures
        ({
            let turn = on_nearest(node, closest);
            &&& turn.next == NextView::Wait
            &&& closest.len() == 0 || closest[0] == node.local_id ==> turn.actions.len() == 0
            &&& closest.len() > 0 && closest[0] != node.local_id ==> turn.actions.len() == 1
                && tells(
                turn.actions[0],
                Some(closest[0]),
                MessageType::RequestMessage,
                Seq::empty(),
            )
        }),
{
    lemma_tells();
}

/// Before it ends, a node tells the whole network that it is offline and waits
/// until the message has left.
pub proof fn law_farewell(node: NodeView)
    ensures
        farewell(node).actions.len() == 2,
        tells(farewell(node).actions[0], None, MessageType::PeerDisconnected, node.local_id),
        farewell(node).actions[1] == ActionView::Pause(500),
        farewell(node).next == NextView::Stop,
{
    lemma_tells();
}

} // verus!
