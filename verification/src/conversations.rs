//! What comes of it when nodes talk to each other: from what is asked of one node
//! to what is done at the others, by way of the bytes that pass between them.

use vstd::prelude::*;
use crate::aliases::lists;
use crate::codec::encode;
use crate::codec_laws::law_decode_encode;
use crate::event_laws::{law_connection, whole_connection};
use crate::laws::{law_versions_ordered, lemma_put_all_union, stands_for};
use crate::message_laws::{lemma_tells, tells};
use crate::model::{
    farewell, is_authorized, network_description, on_admission, on_closing, on_content, on_keepers,
    on_message, on_nearest, on_received, on_user_command, peers_told, peers_whitelisted,
    republish_any, tell, transmit, NodeView, RepublishView,
};
use crate::protocol::{
    plain_message, state_message, store_message, AliasView, MessageType, NetworkStateView,
};
use crate::text::{at_or_after, Text};
use crate::turn::{ActionView, NextView, QuestionView, ReceiveError, TurnView, UserCommand};

verus! {

/// Whether an action hands bytes to `target`, or publishes them where there is no
/// target.
pub open spec fn goes_to(action: ActionView, target: Option<Text>) -> bool {
    action matches ActionView::Transmit { target: to, .. } && to == target
}

/// Whether the bytes that `receiver` gets from `sender` by `action` leave it as
/// `node`, with `actions` to be done and then `next`. Bytes of a length that no
/// machine has are left out.
pub open spec fn leads_to(
    sender: Text,
    action: ActionView,
    receiver: NodeView,
    broadcasted: bool,
    node: NodeView,
    actions: Seq<ActionView>,
    next: NextView,
) -> bool {
    action matches ActionView::Transmit { data, .. } && (data.len() <= u64::MAX ==> on_received(
        receiver,
        sender,
        data,
        broadcasted,
    ) == (node, Ok::<TurnView, ReceiveError>(TurnView { actions, next })))
}

/// The bytes of a plain message are handled as that message.
proof fn lemma_heard(
    kind: MessageType,
    payload: Text,
    target: Option<Text>,
    sender: Text,
    receiver: NodeView,
    broadcasted: bool,
)
    requires
        kind != MessageType::State,
    ensures
        ({
            let (node, turn) = on_message(
                receiver,
                sender,
                plain_message(kind, payload),
                broadcasted,
            );
            leads_to(
                sender,
                tell(kind, payload, target),
                receiver,
                broadcasted,
                node,
                turn.actions,
                turn.next,
            )
        }),
{
    if encode(plain_message(kind, payload)).len() <= u64::MAX {
        law_decode_encode(plain_message(kind, payload));
    }
}

/// A node that joins the network asks the peer that it is first connected to for
/// the state of the network, and that peer looks the state up for it.
pub proof fn law_newcomer_asks(
    newcomer: NodeView,
    host: NodeView,
    peer: String,
    broadcasted: bool,
)
    requires
        newcomer.connected_peers.len() == 0,
        peer@ == host.local_id,
        is_authorized(host, newcomer.local_id),
    ensures
        ({
            let (_, actions) = whole_connection(newcomer, peer, seq![]);
            &&& goes_to(actions[2], Some(host.local_id))
            &&& leads_to(
                newcomer.local_id,
                actions[2],
                host,
                broadcasted,
                host,
                seq![],
                NextView::Ask(QuestionView::NetworkState { sender: newcomer.local_id }),
            )
        }),
{
    lemma_heard(
        MessageType::NetworkSolicitation,
        Seq::empty(),
        Some(peer@),
        newcomer.local_id,
        host,
        broadcasted,
    );
}

/// What the peer answers has a node that has joined take in everything: the
/// distributed table is told of all that are online, the network layer of all that
/// are whitelisted, the node listens to all that the peer listens to, and knows
/// all its aliases. Then it looks for what it has missed. None of this depends on
/// what the node was connected to.
pub proof fn law_newcomer_learns(
    newcomer: NodeView,
    host: NodeView,
    peer: String,
    online: Seq<Text>,
    whitelisted: Seq<Text>,
    aliases: Seq<AliasView>,
    broadcasted: bool,
)
    requires
        peer@ == host.local_id,
        is_authorized(newcomer, host.local_id),
        lists(aliases, host.aliases),
    ensures
        ({
            let (joined, _) = whole_connection(newcomer, peer, seq![]);
            let reply = network_description(
                host,
                newcomer.local_id,
                online,
                whitelisted,
                aliases,
            ).actions[0];
            &&& goes_to(reply, Some(newcomer.local_id))
            &&& leads_to(
                host.local_id,
                reply,
                joined,
                broadcasted,
                NodeView {
                    authorized_senders: newcomer.authorized_senders + host.authorized_senders,
                    aliases: newcomer.aliases.union_prefer_right(host.aliases),
                    ..joined
                },
                online.map_values(|p: Text| ActionView::AddPeer(p)) + whitelisted.map_values(
                    |p: Text| ActionView::AddWhitelisted(p),
                ),
                NextView::Ask(QuestionView::Nearest { peer: newcomer.local_id }),
            )
        }),
{
    let (joined, _) = whole_connection(newcomer, peer, seq![]);
    law_connection(newcomer, peer, seq![]);
    let state = NetworkStateView {
        whitelisted,
        connected: online,
        whitelisted_sender: host.authorized_senders,
        aliases,
    };
    if encode(state_message(state)).len() <= u64::MAX {
        law_decode_encode(state_message(state));
        lemma_put_all_union(joined.aliases, aliases);
        assert(peers_told(online) =~= online.map_values(|p: Text| ActionView::AddPeer(p)));
        assert(peers_whitelisted(whitelisted) =~= whitelisted.map_values(
            |p: Text| ActionView::AddWhitelisted(p),
        ));
    }
}

/// A node that has joined and been told the state of the network asks the closest
/// peer for what it has missed, unless there is none or it is the node itself.
pub proof fn law_newcomer_fetches(
    newcomer: NodeView,
    host: NodeView,
    peer: String,
    online: Seq<Text>,
    whitelisted: Seq<Text>,
    aliases: Seq<AliasView>,
    closest: Seq<Text>,
    broadcasted: bool,
)
    requires
        peer@ == host.local_id,
        is_authorized(newcomer, host.local_id),
        lists(aliases, host.aliases),
    ensures
        ({
            let (joined, _) = whole_connection(newcomer, peer, seq![]);
            network_description(
                host,
                newcomer.local_id,
                online,
                whitelisted,
                aliases,
            ).actions[0] matches ActionView::Transmit { data, .. } && (data.len() <= u64::MAX ==> {
                let (learned, result) = on_received(joined, host.local_id, data, broadcasted);
                let fetch = on_nearest(learned, closest).actions;
                &&& result matches Ok(turn)
                &&& turn.next == NextView::Ask(QuestionView::Nearest { peer: newcomer.local_id })
                &&& closest.len() == 0 || closest[0] == newcomer.local_id ==> fetch.len() == 0
                &&& closest.len() > 0 && closest[0] != newcomer.local_id ==> fetch.len() == 1
                    && tells(
                    fetch[0],
                    Some(closest[0]),
                    MessageType::RequestMessage,
                    Seq::empty(),
                )
            })
        }),
{
    law_newcomer_learns(newcomer, host, peer, online, whitelisted, aliases, broadcasted);
    law_connection(newcomer, peer, seq![]);
    lemma_tells();
}

/// A node that looks for what it has missed asks the closest peer, which looks up
/// what it keeps for that node; what it finds is shown by the node.
pub proof fn law_missed_content_shown(
    node: NodeView,
    keeper: NodeView,
    closest: Seq<Text>,
    content: Text,
    broadcasted: bool,
)
    requires
        closest.len() > 0,
        closest[0] == keeper.local_id,
        keeper.local_id != node.local_id,
        is_authorized(keeper, node.local_id),
        is_authorized(node, keeper.local_id),
    ensures
        ({
            let request = on_nearest(node, closest).actions[0];
            let reply = on_content(node.local_id, Some(content)).actions[0];
            &&& goes_to(request, Some(keeper.local_id))
            &&& leads_to(
                node.local_id,
                request,
                keeper,
                broadcasted,
                keeper,
                seq![],
                NextView::Ask(QuestionView::Content { receiver: node.local_id }),
            )
            &&& goes_to(reply, Some(node.local_id))
            &&& leads_to(
                keeper.local_id,
                reply,
                node,
                false,
                node,
                seq![ActionView::Display(content)],
                NextView::Wait,
            )
        }),
{
    lemma_heard(
        MessageType::RequestMessage,
        Seq::empty(),
        Some(keeper.local_id),
        node.local_id,
        keeper,
        broadcasted,
    );
    lemma_heard(
        MessageType::DisplayMessage,
        content,
        Some(node.local_id),
        keeper.local_id,
        node,
        false,
    );
    assert(Seq::<ActionView>::empty() + seq![ActionView::Display(content)] =~= seq![
        ActionView::Display(content),
    ]);
}

proof fn lemma_store_heard(
    receiver: Option<Text>,
    content: Text,
    target: Text,
    sender: Text,
    keeper: NodeView,
    broadcasted: bool,
)
    requires
        is_authorized(keeper, sender),
    ensures
        leads_to(
            sender,
            transmit(store_message(receiver, content), Some(target)),
            keeper,
            broadcasted,
            keeper,
            seq![
                match receiver {
                    Some(receiver) => ActionView::Store { receiver, data: content },
                    None => ActionView::StoreBroadcast(content),
                },
            ],
            NextView::Wait,
        ),
{
    if encode(store_message(receiver, content)).len() <= u64::MAX {
        law_decode_encode(store_message(receiver, content));
    }
}

/// A message that the user sends to one peer comes to be kept for that peer by
/// each of those that are closest to it, whatever the node knows of the peer: by
/// the node itself, and by every other one that listens to it.
pub proof fn law_message_kept(
    node: NodeView,
    keeper: NodeView,
    peer: String,
    message: String,
    closest: Seq<Text>,
    i: int,
    broadcasted: bool,
)
    requires
        0 <= i < closest.len(),
        closest[i] == keeper.local_id,
        is_authorized(keeper, node.local_id),
    ensures
        ({
            let turn = on_user_command(
                node,
                UserCommand::SendMsg { peer: Some(peer), message },
            ).1;
            let action = on_keepers(node, peer@, message@, closest)[i];
            let kept = ActionView::Store { receiver: peer@, data: message@ };
            &&& turn.next == NextView::Ask(QuestionView::Keepers { peer: peer@, message: message@ })
            &&& keeper.local_id == node.local_id ==> action == kept
            &&& keeper.local_id != node.local_id ==> {
                &&& goes_to(action, Some(keeper.local_id))
                &&& leads_to(
                    node.local_id,
                    action,
                    keeper,
                    broadcasted,
                    keeper,
                    seq![kept],
                    NextView::Wait,
                )
            }
        }),
{
    lemma_store_heard(
        Some(peer@),
        message@,
        keeper.local_id,
        node.local_id,
        keeper,
        broadcasted,
    );
}

/// Whatever the distributed table hands on when a peer comes or goes is kept by
/// the node that it is handed to, for its receiver or for all.
pub proof fn law_handed_content_kept(
    handed: RepublishView,
    i: int,
    sender: Text,
    keeper: NodeView,
    broadcasted: bool,
)
    requires
        0 <= i < handed.content.len(),
        handed.target == keeper.local_id,
        is_authorized(keeper, sender),
    ensures
        ({
            let actions = republish_any(Some(handed));
            let piece = handed.content[i];
            &&& actions.len() == handed.content.len()
            &&& goes_to(actions[i], Some(keeper.local_id))
            &&& leads_to(
                sender,
                actions[i],
                keeper,
                broadcasted,
                keeper,
                seq![
                    match piece.receiver {
                        Some(receiver) => ActionView::Store { receiver, data: piece.data },
                        None => ActionView::StoreBroadcast(piece.data),
                    },
                ],
                NextView::Wait,
            )
        }),
{
    let piece = handed.content[i];
    lemma_store_heard(
        piece.receiver,
        piece.data,
        keeper.local_id,
        sender,
        keeper,
        broadcasted,
    );
}

/// When a node joins the network, every node that listens to it lets its
/// distributed table know, whoever it is connected to already.
pub proof fn law_newcomer_announced(
    newcomer: NodeView,
    other: NodeView,
    peer: String,
    broadcasted: bool,
)
    requires
        newcomer.connected_peers.len() == 0,
        is_authorized(other, newcomer.local_id),
    ensures
        ({
            let (_, actions) = whole_connection(newcomer, peer, seq![]);
            &&& goes_to(actions[1], None)
            &&& leads_to(
                newcomer.local_id,
                actions[1],
                other,
                broadcasted,
                other,
                seq![],
                NextView::Ask(QuestionView::Arrival { peer: newcomer.local_id }),
            )
        }),
{
    lemma_heard(
        MessageType::PeerConnected,
        newcomer.local_id,
        None,
        newcomer.local_id,
        other,
        broadcasted,
    );
}

/// When a connection to an online peer is closed, every other node that listens to
/// the reporter lets its distributed table know that the peer is gone.
pub proof fn law_closing_reported(
    node: NodeView,
    other: NodeView,
    peer: Text,
    online: Seq<Text>,
    broadcasted: bool,
)
    requires
        online.contains(peer),
        other.local_id != peer,
        is_authorized(other, node.local_id),
    ensures
        ({
            let report = on_closing(node, peer, online).1.actions[0];
            &&& goes_to(report, None)
            &&& leads_to(
                node.local_id,
                report,
                other,
                broadcasted,
                other,
                seq![],
                NextView::Ask(QuestionView::Departure { peer, closing: false }),
            )
        }),
{
    lemma_heard(MessageType::PeerDisconnected, peer, None, node.local_id, other, broadcasted);
}

/// A peer that is reported although it is there tells the network so, and the
/// reporter then lets its distributed table know that the peer is online.
pub proof fn law_report_taken_back(
    node: NodeView,
    peer: NodeView,
    online: Seq<Text>,
    broadcasted: bool,
    again: bool,
)
    requires
        online.contains(peer.local_id),
        is_authorized(peer, node.local_id),
        is_authorized(node, peer.local_id),
    ensures
        ({
            let report = on_closing(node, peer.local_id, online).1.actions[0];
            report matches ActionView::Transmit { data, .. } && (data.len() <= u64::MAX ==> {
                let (after, result) = on_received(peer, node.local_id, data, broadcasted);
                &&& after == peer
                &&& result matches Ok(turn)
                &&& turn.next == NextView::Wait
                &&& turn.actions.len() == 1
                &&& goes_to(turn.actions[0], None)
                &&& leads_to(
                    peer.local_id,
                    turn.actions[0],
                    node,
                    again,
                    node,
                    seq![],
                    NextView::Ask(QuestionView::Arrival { peer: peer.local_id }),
                )
            })
        }),
{
    lemma_heard(
        MessageType::PeerDisconnected,
        peer.local_id,
        None,
        node.local_id,
        peer,
        broadcasted,
    );
    lemma_heard(
        MessageType::PeerConnected,
        peer.local_id,
        None,
        peer.local_id,
        node,
        again,
    );
}

/// When a node ends, every other node that listens to it lets its distributed
/// table know that it is gone.
pub proof fn law_farewell_heard(node: NodeView, other: NodeView, broadcasted: bool)
    requires
        other.local_id != node.local_id,
        is_authorized(other, node.local_id),
    ensures
        goes_to(farewell(node).actions[0], None),
        leads_to(
            node.local_id,
            farewell(node).actions[0],
            other,
            broadcasted,
            other,
            seq![],
            NextView::Ask(QuestionView::Departure { peer: node.local_id, closing: false }),
        ),
{
    lemma_heard(
        MessageType::PeerDisconnected,
        node.local_id,
        None,
        node.local_id,
        other,
        broadcasted,
    );
}

/// An older node that is connected by a newer one comes to install the program of
/// the newer: it is told the version and asks for the program, the newer serves it
/// and names each of its addresses with its port, and the older installs the
/// program from there. Neither lets itself be kept from it by what else it knows.
pub proof fn law_upgrade_travels(
    newer: NodeView,
    older: NodeView,
    peer: String,
    whitelisted: Seq<Text>,
    i: int,
    first: bool,
    second: bool,
    third: bool,
)
    requires
        peer@ == older.local_id,
        newer.version is Some,
        older.version matches Some(version) ==> version != newer.version->0 && at_or_after(
            newer.version->0,
            version,
        ),
        !newer.upgrade_in_progress,
        !older.upgrade_in_progress,
        is_authorized(newer, older.local_id),
        is_authorized(older, newer.local_id),
        0 <= i < newer.listening_addrs.len(),
    ensures
        ({
            let (_, actions) = whole_connection(newer, peer, whitelisted);
            let waiting = NodeView { upgrade_in_progress: true, ..older };
            &&& goes_to(actions.last(), Some(older.local_id))
            &&& actions.last() matches ActionView::Transmit { data, .. } && (data.len()
                <= u64::MAX ==> {
                let (asking, result) = on_received(older, newer.local_id, data, first);
                &&& asking == waiting
                &&& result matches Ok(asked)
                &&& asked.next == NextView::Wait
                &&& asked.actions.len() == 1
                &&& goes_to(asked.actions[0], Some(newer.local_id))
                &&& asked.actions[0] matches ActionView::Transmit { data: request, .. } && (
                request.len() <= u64::MAX ==> {
                    let (serving, answer) = on_received(newer, older.local_id, request, second);
                    &&& serving == newer
                    &&& answer matches Ok(offer)
                    &&& offer.next == NextView::Wait
                    &&& offer.actions.len() == 1 + newer.listening_addrs.len()
                    &&& offer.actions[0] == ActionView::ServeBinaryOnce
                    &&& goes_to(offer.actions[1 + i], Some(older.local_id))
                    &&& leads_to(
                        newer.local_id,
                        offer.actions[1 + i],
                        waiting,
                        third,
                        waiting,
                        seq![
                            ActionView::UpgradeBinary(
                                newer.listening_addrs[i] + seq![':'] + newer.upgrade_port,
                            ),
                        ],
                        NextView::Wait,
                    )
                })
            })
        }),
{
    let version = newer.version->0;
    let waiting = NodeView { upgrade_in_progress: true, ..older };
    let address = newer.listening_addrs[i] + seq![':'] + newer.upgrade_port;
    if let Some(own) = older.version {
        law_versions_ordered(own, version);
    }
    reveal_strlit(":");
    assert(":"@ =~= seq![':']);
    let (_, actions) = whole_connection(newer, peer, whitelisted);
    assert(actions.last() == tell(
        MessageType::NetworkBinaryVersion,
        version,
        Some(older.local_id),
    ));
    lemma_heard(
        MessageType::NetworkBinaryVersion,
        version,
        Some(older.local_id),
        newer.local_id,
        older,
        first,
    );
    lemma_heard(
        MessageType::RequestUpgrade,
        Seq::empty(),
        Some(newer.local_id),
        older.local_id,
        newer,
        second,
    );
    lemma_heard(
        MessageType::Upgrade,
        address,
        Some(older.local_id),
        newer.local_id,
        waiting,
        third,
    );
}

/// A program that the user of a node offers is installed by each node that the
/// offer reaches and that listens to it, whether an upgrade is in progress or not.
pub proof fn law_offer_followed(
    node: NodeView,
    other: NodeView,
    peer: String,
    addr: String,
    broadcasted: bool,
)
    requires
        is_authorized(other, node.local_id),
    ensures
        ({
            let action = on_user_command(node, UserCommand::Upgrade(peer, addr)).1.actions[0];
            &&& peer@.len() == 0 ==> goes_to(action, None)
            &&& peer@.len() > 0 ==> goes_to(action, Some(peer@))
            &&& leads_to(
                node.local_id,
                action,
                other,
                broadcasted,
                other,
                seq![ActionView::UpgradeBinary(addr@)],
                NextView::Wait,
            )
        }),
{
    let target = if peer@.len() == 0 {
        None
    } else {
        Some(peer@)
    };
    lemma_heard(MessageType::Upgrade, addr@, target, node.local_id, other, broadcasted);
}

/// Whether `bytes` from `sender` leave `receiver` as it was but for its alias
/// table, in which `alias` then is the one alias that stands for `sender`.
pub open spec fn names_sender(
    sender: Text,
    action: ActionView,
    receiver: NodeView,
    broadcasted: bool,
    alias: Text,
) -> bool {
    action matches ActionView::Transmit { data, .. } && (data.len() <= u64::MAX ==> {
        let (after, result) = on_received(receiver, sender, data, broadcasted);
        &&& result matches Ok(turn)
        &&& turn.actions.len() == 0
        &&& turn.next == NextView::Wait
        &&& after == (NodeView { aliases: after.aliases, ..receiver })
        &&& forall|name: Text| #[trigger]
            stands_for(after.aliases, name, sender) <==> name == alias
        &&& forall|name: Text, peer: Text|
            peer != sender ==> (#[trigger] stands_for(after.aliases, name, peer) <==> stands_for(
                receiver.aliases,
                name,
                peer,
            ))
    })
}

/// When the user of a node gives it an alias that is free, it stands for the node
/// at every other node that listens to it, and no other alias does. The same comes
/// of a connection that the node makes later. Aliases that are taken are kept.
pub proof fn law_alias_travels(
    node: NodeView,
    other: NodeView,
    alias: String,
    peer: String,
    whitelisted: Seq<Text>,
    broadcasted: bool,
)
    requires
        is_authorized(other, node.local_id),
    ensures
        ({
            let (named, turn) = on_user_command(node, UserCommand::Alias(alias));
            let (_, actions) = whole_connection(named, peer, whitelisted);
            let place = actions.len() - if node.version is Some {
                2int
            } else {
                1
            };
            &&& goes_to(turn.actions[0], None)
            &&& other.aliases.contains_key(alias@) ==> leads_to(
                node.local_id,
                turn.actions[0],
                other,
                broadcasted,
                other,
                seq![],
                NextView::Wait,
            )
            &&& !other.aliases.contains_key(alias@) ==> names_sender(
                node.local_id,
                turn.actions[0],
                other,
                broadcasted,
                alias@,
            )
            &&& alias@.len() > 0 ==> goes_to(actions[place], Some(peer@))
            &&& alias@.len() > 0 && !other.aliases.contains_key(alias@) ==> names_sender(
                node.local_id,
                actions[place],
                other,
                broadcasted,
                alias@,
            )
        }),
{
    lemma_heard(MessageType::PublishAlias, alias@, None, node.local_id, other, broadcasted);
    lemma_heard(MessageType::PublishAlias, alias@, Some(peer@), node.local_id, other, broadcasted);
    let named = on_user_command(node, UserCommand::Alias(alias)).0;
    let (_, actions) = whole_connection(named, peer, whitelisted);
    if alias@.len() > 0 {
        assert(actions[actions.len() - if node.version is Some {
            2int
        } else {
            1
        }] == tell(MessageType::PublishAlias, alias@, Some(peer@)));
    }
}

/// A peer that the user of a node has whitelisted is whitelisted at every node
/// that listens to it, unless the node had whitelisted it before.
pub proof fn law_whitelisting_travels(
    node: NodeView,
    other: NodeView,
    peer: Text,
    whitelisted: Seq<Text>,
    broadcasted: bool,
)
    requires
        !whitelisted.contains(peer),
        is_authorized(other, node.local_id),
    ensures
        ({
            let actions = on_admission(node, peer, whitelisted).actions;
            &&& actions.contains(ActionView::AddWhitelisted(peer))
            &&& goes_to(actions[3], None)
            &&& leads_to(
                node.local_id,
                actions[3],
                other,
                broadcasted,
                other,
                seq![ActionView::AddWhitelisted(peer)],
                NextView::Wait,
            )
        }),
{
    let actions = on_admission(node, peer, whitelisted).actions;
    assert(actions[1] == ActionView::AddWhitelisted(peer));
    lemma_heard(MessageType::AddWhitelistPeer, peer, None, node.local_id, other, broadcasted);
}

/// A peer that the user of a node authorizes is listened to by the node and by
/// every node that listens to it.
pub proof fn law_authorization_travels(
    node: NodeView,
    other: NodeView,
    peer: String,
    broadcasted: bool,
)
    requires
        is_authorized(other, node.local_id),
    ensures
        ({
            let (next, turn) = on_user_command(node, UserCommand::Authorize(peer));
            let after = NodeView {
                authorized_senders: other.authorized_senders.push(peer@),
                ..other
            };
            &&& is_authorized(next, peer@)
            &&& is_authorized(after, peer@)
            &&& goes_to(turn.actions[0], None)
            &&& leads_to(
                node.local_id,
                turn.actions[0],
                other,
                broadcasted,
                after,
                seq![],
                NextView::Wait,
            )
        }),
{
    let own = node.authorized_senders;
    let others = other.authorized_senders;
    assert(own.push(peer@)[own.len() as int] == peer@);
    assert(others.push(peer@)[others.len() as int] == peer@);
    assert(own.push(peer@).contains(peer@));
    assert(others.push(peer@).contains(peer@));
    lemma_heard(MessageType::AddWhitelistSender, peer@, None, node.local_id, other, broadcasted);
}

} // verus!
