//! What a node knows, and how each input changes it: the functions that the
//! contracts of `Management` speak of.

use vstd::prelude::*;
use crate::aliases::{put_all, without_value};
use crate::codec::{decode, encode};
use crate::protocol::{
    numbered_type, plain_message, state_message, store_message, AliasView, ControlMessageView,
    MessageType, NetworkStateView, StoreMessageView,
};
use crate::text::{at_or_after, optional_text, with_text, without_text, Text};
use crate::turn::{
    ask, done, ActionView, Input, NetworkEvent, NextView, QuestionView, ReceiveError, ReplyView,
    TurnView, UserCommand,
};

verus! {

/// How long a node waits for all connections to be there, in milliseconds.
pub const CONNECTION_PAUSE: u64 = 500;

/// How long a node waits around the news of a whitelisted peer, in milliseconds.
pub const WHITELIST_PAUSE: u64 = 200;

/// How long a node waits for its last message to leave, in milliseconds.
pub const SHUTDOWN_PAUSE: u64 = 500;

/// What a node knows.
#[verifier::ext_equal]
pub struct NodeView {
    /// The identity that the node has on the network.
    pub local_id: Text,
    /// The version of the running program, if it has one.
    pub version: Option<Text>,
    /// The port at which nodes serve their program.
    pub upgrade_port: Text,
    /// Whom the node takes messages from; everybody, where it is empty.
    pub authorized_senders: Seq<Text>,
    /// Which peer each alias stands for.
    pub aliases: Map<Text, Text>,
    /// The alias that the node has given itself; empty, where it has none.
    pub alias: Text,
    pub discovered_peers: Seq<Text>,
    pub rejected_peers: Seq<Text>,
    pub connected_peers: Seq<Text>,
    pub listening_addrs: Seq<Text>,
    /// Whether the node has asked another one for its program.
    pub upgrade_in_progress: bool,
}

/// A node that has just come up.
pub open spec fn fresh(local_id: Text, version: Option<Text>, upgrade_port: Text) -> NodeView {
    NodeView {
        local_id,
        version,
        upgrade_port,
        authorized_senders: Seq::empty(),
        aliases: Map::empty(),
        alias: Seq::empty(),
        discovered_peers: Seq::empty(),
        rejected_peers: Seq::empty(),
        connected_peers: Seq::empty(),
        listening_addrs: Seq::empty(),
        upgrade_in_progress: false,
    }
}

/// No peer stands twice in a list of peers, and no address in the list of
/// addresses.
pub open spec fn lists_distinct(node: NodeView) -> bool {
    &&& node.discovered_peers.no_duplicates()
    &&& node.rejected_peers.no_duplicates()
    &&& node.connected_peers.no_duplicates()
    &&& node.listening_addrs.no_duplicates()
}

/// The bytes of a message, for one peer or for the whole network.
pub open spec fn transmit(msg: ControlMessageView, target: Option<Text>) -> ActionView {
    ActionView::Transmit { target, data: encode(msg) }
}

/// A message that carries nothing but a payload, for one peer or for all.
pub open spec fn tell(message_type: MessageType, payload: Text, target: Option<Text>) -> ActionView {
    transmit(plain_message(message_type, payload), target)
}

/// The actions where `condition` holds, and none otherwise.
pub open spec fn provided(condition: bool, actions: Seq<ActionView>) -> Seq<ActionView> {
    if condition {
        actions
    } else {
        Seq::empty()
    }
}

/// The node without `peer` in its lists of peers.
pub open spec fn forget(node: NodeView, peer: Text) -> NodeView {
    NodeView {
        discovered_peers: without_text(node.discovered_peers, peer),
        rejected_peers: without_text(node.rejected_peers, peer),
        connected_peers: without_text(node.connected_peers, peer),
        ..node
    }
}

/// The node with a connection to `peer`.
pub open spec fn connect(node: NodeView, peer: Text) -> NodeView {
    NodeView {
        rejected_peers: without_text(node.rejected_peers, peer),
        connected_peers: with_text(node.connected_peers, peer),
        ..node
    }
}

/// What a node tells of itself to a peer that it is connected to: its alias and
/// its version, where it has them.
pub open spec fn introduction(node: NodeView, peer: Text) -> Seq<ActionView> {
    provided(
        node.alias.len() > 0,
        seq![tell(MessageType::PublishAlias, node.alias, Some(peer))],
    ) + (match node.version {
        Some(version) => seq![tell(MessageType::NetworkBinaryVersion, version, Some(peer))],
        None => seq![],
    })
}

/// What a node does on the first connection into the network: it tells the
/// network of itself and asks the peer for the state of the network.
pub open spec fn entrance(node: NodeView, peer: Text) -> Seq<ActionView> {
    seq![
        tell(MessageType::PeerConnected, node.local_id, None),
        tell(MessageType::NetworkSolicitation, Seq::empty(), Some(peer)),
    ]
}

/// An event of the network layer.
pub open spec fn on_network_event(node: NodeView, event: NetworkEvent) -> (NodeView, TurnView) {
    match event {
        NetworkEvent::PeerDiscovered { peer } => (
            NodeView { discovered_peers: with_text(node.discovered_peers, peer@), ..node },
            done(seq![]),
        ),
        NetworkEvent::ConnectionEstablished { peer } => {
            let pause = seq![ActionView::Pause(CONNECTION_PAUSE)];
            if node.connected_peers.len() == 0 {
                (node, ask(pause, QuestionView::Greeting { peer: peer@ }))
            } else {
                (connect(node, peer@), done(pause + introduction(node, peer@)))
            }
        },
        NetworkEvent::ConnectionClosed { peer } => (
            node,
            ask(seq![], QuestionView::Closing { peer: peer@ }),
        ),
        NetworkEvent::ConnectionRejected { peer } => (
            NodeView { rejected_peers: with_text(node.rejected_peers, peer@), ..node },
            done(seq![]),
        ),
        NetworkEvent::PeerExpired { peer } => (forget(node, peer@), done(seq![])),
        NetworkEvent::NewListenAddress { addr } => (
            NodeView { listening_addrs: with_text(node.listening_addrs, addr@), ..node },
            done(seq![]),
        ),
    }
}

/// The first connection, when the whitelist of the network layer is known: the
/// node enters the network where nobody has whitelisted anybody yet.
pub open spec fn on_greeting(node: NodeView, peer: Text, whitelisted: Seq<Text>) -> (
    NodeView,
    TurnView,
) {
    (
        connect(node, peer),
        done(
            provided(whitelisted.len() == 0, entrance(node, peer)) + introduction(node, peer),
        ),
    )
}

/// A closed connection, when the online peers are known: a peer that was online
/// is reported to the network, and what is kept for it moves on.
pub open spec fn on_closing(node: NodeView, peer: Text, online: Seq<Text>) -> (NodeView, TurnView) {
    let report = tell(MessageType::PeerDisconnected, peer, None);
    if !online.contains(peer) {
        (forget(node, peer), done(seq![]))
    } else if peer == node.local_id {
        (
            forget(node, peer),
            done(seq![report, tell(MessageType::PeerConnected, node.local_id, None)]),
        )
    } else {
        (node, ask(seq![report], QuestionView::Departure { peer, closing: true }))
    }
}

/// What the distributed table hands on: to which peer, and what it is to keep.
pub struct RepublishView {
    pub target: Text,
    pub content: Seq<StoreMessageView>,
}

/// The requests to keep what the distributed table hands on, one for each piece.
pub open spec fn republish(handed: RepublishView) -> Seq<ActionView> {
    Seq::new(
        handed.content.len(),
        |i: int|
            transmit(
                store_message(handed.content[i].receiver, handed.content[i].data),
                Some(handed.target),
            ),
    )
}

/// What is handed on, if anything is.
pub open spec fn republish_any(handed: Option<RepublishView>) -> Seq<ActionView> {
    match handed {
        Some(handed) => republish(handed),
        None => seq![],
    }
}

/// What the distributed table hands on when a peer comes online: pieces for one
/// receiver or for all.
pub open spec fn arrival_view(handed: Option<(String, Vec<(Option<String>, String)>)>) -> Option<
    RepublishView,
> {
    match handed {
        Some((target, content)) => Some(
            RepublishView {
                target: target@,
                content: content@.map_values(
                    |piece: (Option<String>, String)|
                        StoreMessageView { receiver: optional_text(piece.0), data: piece.1@ },
                ),
            },
        ),
        None => None,
    }
}

/// What the distributed table hands on when a peer goes offline: pieces for one
/// receiver each.
pub open spec fn departure_view(handed: Option<(String, Vec<(String, String)>)>) -> Option<
    RepublishView,
> {
    match handed {
        Some((target, content)) => Some(
            RepublishView {
                target: target@,
                content: content@.map_values(
                    |piece: (String, String)|
                        StoreMessageView { receiver: Some(piece.0@), data: piece.1@ },
                ),
            },
        ),
        None => None,
    }
}

/// A peer has gone offline, when it is known what is handed on. Where its
/// connection was closed, it leaves the lists of peers.
pub open spec fn on_departure(
    node: NodeView,
    peer: Text,
    closing: bool,
    handed: Option<RepublishView>,
) -> (NodeView, TurnView) {
    (
        if closing {
            forget(node, peer)
        } else {
            node
        },
        done(republish_any(handed)),
    )
}

/// What a node does to have `peer` whitelisted everywhere: itself first, so that
/// it is not shut out, then the peer, and then the news to the others.
pub open spec fn whitelisting(node: NodeView, peer: Text) -> Seq<ActionView> {
    seq![
        ActionView::AddWhitelisted(node.local_id),
        ActionView::AddWhitelisted(peer),
        ActionView::Pause(WHITELIST_PAUSE),
        tell(MessageType::AddWhitelistPeer, peer, None),
        ActionView::Pause(WHITELIST_PAUSE),
    ]
}

/// The node is asked to whitelist `peer`, when the whitelist is known.
pub open spec fn on_admission(node: NodeView, peer: Text, whitelisted: Seq<Text>) -> TurnView {
    done(provided(!whitelisted.contains(peer), whitelisting(node, peer)))
}

/// How each of the peers closest to `peer` comes to keep the message for it: the
/// node itself stores it, the others are asked to.
pub open spec fn on_keepers(
    node: NodeView,
    peer: Text,
    message: Text,
    closest: Seq<Text>,
) -> Seq<ActionView> {
    Seq::new(
        closest.len(),
        |i: int|
            if closest[i] == node.local_id {
                ActionView::Store { receiver: peer, data: message }
            } else {
                transmit(store_message(Some(peer), message), Some(closest[i]))
            },
    )
}

/// A command of the user.
pub open spec fn on_user_command(node: NodeView, command: UserCommand) -> (NodeView, TurnView) {
    match command {
        UserCommand::SendMsg { peer: None, message } => (
            node,
            done(
                seq![
                    ActionView::StoreBroadcast(message@),
                    tell(MessageType::DisplayMessage, message@, None),
                ],
            ),
        ),
        UserCommand::SendMsg { peer: Some(peer), message } => (
            node,
            ask(
                seq![tell(MessageType::DisplayMessage, message@, Some(peer@))],
                QuestionView::Keepers { peer: peer@, message: message@ },
            ),
        ),
        UserCommand::Whitelist(peer) => (
            node,
            ask(seq![], QuestionView::Admission { peer: peer@ }),
        ),
        UserCommand::Authorize(peer) => (
            NodeView { authorized_senders: node.authorized_senders.push(peer@), ..node },
            done(seq![tell(MessageType::AddWhitelistSender, peer@, None)]),
        ),
        UserCommand::Alias(alias) => (
            NodeView { alias: alias@, ..node },
            done(seq![tell(MessageType::PublishAlias, alias@, None)]),
        ),
        UserCommand::UpgradeSelf(addr) => (node, done(seq![ActionView::UpgradeBinary(addr@)])),
        UserCommand::Upgrade(peer, addr) => (
            node,
            done(
                seq![
                    tell(
                        MessageType::Upgrade,
                        addr@,
                        if peer@.len() == 0 {
                            None
                        } else {
                            Some(peer@)
                        },
                    ),
                ],
            ),
        ),
        UserCommand::Serve(path) => (node, done(seq![ActionView::Serve(path@)])),
        UserCommand::ServeStop => (node, done(seq![ActionView::StopServing])),
        UserCommand::GetPeerId => (node, ask(seq![], QuestionView::PeerId)),
        UserCommand::GetAlias => (node, answer(ReplyView::Text(node.alias))),
        UserCommand::GetAliases => (node, answer(ReplyView::Aliases(node.aliases))),
        UserCommand::GetDiscovered => (node, answer(ReplyView::Peers(node.discovered_peers))),
        UserCommand::GetConnected => (node, answer(ReplyView::Peers(node.connected_peers))),
        UserCommand::GetRejected => (node, answer(ReplyView::Peers(node.rejected_peers))),
    }
}

/// The turn that answers a command and does nothing else.
pub open spec fn answer(reply: ReplyView) -> TurnView {
    done(seq![ActionView::Answer(reply)])
}

/// Whether the node takes messages from `sender`: from itself always, and from
/// others where it has authorized nobody or has authorized them.
pub open spec fn is_authorized(node: NodeView, sender: Text) -> bool {
    ||| node.authorized_senders.len() == 0
    ||| sender == node.local_id
    ||| node.authorized_senders.contains(sender)
}

/// Whether a message can be handled: its type is known, and news of the network
/// from a sender that is listened to do carry a state.
pub open spec fn can_handle(node: NodeView, sender: Text, msg: ControlMessageView) -> bool {
    &&& numbered_type(msg.message_type) is Some
    &&& is_authorized(node, sender) && numbered_type(msg.message_type) == Some(MessageType::State)
        ==> msg.state is Some
}

/// What `id` stands for in the table, or `id` itself.
pub open spec fn resolved(aliases: Map<Text, Text>, id: Text) -> Text {
    if aliases.contains_key(id) {
        aliases[id]
    } else {
        id
    }
}

/// The table when `sender` has asked for `alias`. An alias that is taken stays
/// as it is. Otherwise `alias` stands for `sender`, in place of whatever stood
/// for `sender` before.
pub open spec fn with_alias(aliases: Map<Text, Text>, alias: Text, sender: Text) -> Map<Text, Text> {
    if aliases.contains_key(alias) {
        aliases
    } else {
        without_value(aliases, sender).insert(alias, sender)
    }
}

/// Where the node serves its program, as its peers are told.
pub open spec fn upgrade_address(addr: Text, port: Text) -> Text {
    addr + ":"@ + port
}

/// The offers of the program to `sender`, one for each address.
pub open spec fn upgrade_offers(addrs: Seq<Text>, port: Text, sender: Text) -> Seq<ActionView> {
    Seq::new(
        addrs.len(),
        |i: int| tell(MessageType::Upgrade, upgrade_address(addrs[i], port), Some(sender)),
    )
}

/// Whether the node wants the program of a peer that runs version `offered`: its
/// own has no version or an older one, and it has not asked anybody yet.
pub open spec fn wants_upgrade(node: NodeView, offered: Text) -> bool {
    &&& node.version matches Some(version) ==> !at_or_after(version, offered)
    &&& !node.upgrade_in_progress
}

/// The peers that the distributed table is told of.
pub open spec fn peers_told(peers: Seq<Text>) -> Seq<ActionView> {
    Seq::new(peers.len(), |i: int| ActionView::AddPeer(peers[i]))
}

/// The peers that the network layer is told to accept.
pub open spec fn peers_whitelisted(peers: Seq<Text>) -> Seq<ActionView> {
    Seq::new(peers.len(), |i: int| ActionView::AddWhitelisted(peers[i]))
}

/// News of the network.
pub open spec fn on_state(node: NodeView, state: NetworkStateView) -> (NodeView, TurnView) {
    (
        NodeView {
            authorized_senders: node.authorized_senders + state.whitelisted_sender,
            aliases: put_all(node.aliases, state.aliases),
            ..node
        },
        ask(
            peers_told(state.connected) + peers_whitelisted(state.whitelisted),
            QuestionView::Nearest { peer: node.local_id },
        ),
    )
}

/// A request to keep content.
pub open spec fn on_store(store: Option<StoreMessageView>) -> Seq<ActionView> {
    match store {
        None => seq![],
        Some(store) => match store.receiver {
            Some(receiver) => seq![ActionView::Store { receiver, data: store.data }],
            None => seq![ActionView::StoreBroadcast(store.data)],
        },
    }
}

/// A message of another node, or of the node itself.
pub open spec fn on_message(
    node: NodeView,
    sender: Text,
    msg: ControlMessageView,
    broadcasted: bool,
) -> (NodeView, TurnView) {
    if !is_authorized(node, sender) {
        (node, done(seq![]))
    } else {
        match numbered_type(msg.message_type) {
            Some(MessageType::DisplayMessage) => (
                node,
                done(
                    provided(broadcasted, seq![ActionView::StoreBroadcast(msg.payload)]) + seq![
                        ActionView::Display(msg.payload),
                    ],
                ),
            ),
            Some(MessageType::AddWhitelistPeer) => (
                node,
                done(seq![ActionView::AddWhitelisted(msg.payload)]),
            ),
            Some(MessageType::AddWhitelistSender) => (
                NodeView { authorized_senders: node.authorized_senders.push(msg.payload), ..node },
                done(seq![]),
            ),
            Some(MessageType::PublishAlias) => (
                NodeView { aliases: with_alias(node.aliases, msg.payload, sender), ..node },
                done(seq![]),
            ),
            Some(MessageType::NetworkSolicitation) => (
                node,
                ask(seq![], QuestionView::NetworkState { sender }),
            ),
            Some(MessageType::Upgrade) => (
                node,
                done(seq![ActionView::UpgradeBinary(msg.payload)]),
            ),
            Some(MessageType::RequestUpgrade) => (
                node,
                done(
                    provided(
                        !node.upgrade_in_progress,
                        seq![ActionView::ServeBinaryOnce] + upgrade_offers(
                            node.listening_addrs,
                            node.upgrade_port,
                            sender,
                        ),
                    ),
                ),
            ),
            Some(MessageType::NetworkBinaryVersion) => if wants_upgrade(node, msg.payload) {
                (
                    NodeView { upgrade_in_progress: true, ..node },
                    done(seq![tell(MessageType::RequestUpgrade, Seq::empty(), Some(sender))]),
                )
            } else {
                (node, done(seq![]))
            },
            Some(MessageType::PeerConnected) => (
                node,
                ask(seq![], QuestionView::Arrival { peer: msg.payload }),
            ),
            Some(MessageType::PeerDisconnected) => if msg.payload == node.local_id {
                (node, done(seq![tell(MessageType::PeerConnected, node.local_id, None)]))
            } else {
                (node, ask(seq![], QuestionView::Departure { peer: msg.payload, closing: false }))
            },
            Some(MessageType::RequestMessage) => (
                node,
                ask(seq![], QuestionView::Content { receiver: sender }),
            ),
            Some(MessageType::StoreMessage) => (node, done(on_store(msg.message))),
            Some(MessageType::State) => match msg.state {
                Some(state) => on_state(node, state),
                None => (node, done(seq![])),
            },
            None => (node, done(seq![])),
        }
    }
}

/// Bytes from the network. Nothing changes where they hold no message that can be
/// handled.
pub open spec fn on_received(
    node: NodeView,
    sender: Text,
    data: Seq<u8>,
    broadcasted: bool,
) -> (NodeView, Result<TurnView, ReceiveError>) {
    match decode(data) {
        None => (node, Err(ReceiveError::Undecodable)),
        Some(msg) => if numbered_type(msg.message_type) is None {
            (node, Err(ReceiveError::UnknownType))
        } else if !can_handle(node, sender, msg) {
            (node, Err(ReceiveError::MissingState))
        } else {
            let (next, turn) = on_message(node, sender, msg, broadcasted);
            (next, Ok(turn))
        },
    }
}

/// Whatever a node waits for.
pub open spec fn on_input(node: NodeView, input: Input) -> (
    NodeView,
    Result<TurnView, ReceiveError>,
) {
    match input {
        Input::Received { sender, data, broadcasted } => on_received(
            node,
            sender@,
            data@,
            broadcasted,
        ),
        Input::Command(command) => {
            let (next, turn) = on_user_command(node, command);
            (next, Ok(turn))
        },
        Input::CommandsClosed => (node, Ok(farewell(node))),
        Input::Event(event) => {
            let (next, turn) = on_network_event(node, event);
            (next, Ok(turn))
        },
    }
}

/// What the node tells `sender` of the network; `aliases` are the entries of its
/// alias table in some order.
pub open spec fn network_description(
    node: NodeView,
    sender: Text,
    online: Seq<Text>,
    whitelisted: Seq<Text>,
    aliases: Seq<AliasView>,
) -> TurnView {
    let state = NetworkStateView {
        whitelisted,
        connected: online,
        whitelisted_sender: node.authorized_senders,
        aliases,
    };
    done(seq![transmit(state_message(state), Some(sender))])
}

/// The content that is kept for `receiver`, if there is any.
pub open spec fn on_content(receiver: Text, content: Option<Text>) -> TurnView {
    match content {
        Some(content) => done(seq![tell(MessageType::DisplayMessage, content, Some(receiver))]),
        None => done(seq![]),
    }
}

/// The request for what the node has missed: to the peer that is closest to it,
/// unless that is the node itself.
pub open spec fn on_nearest(node: NodeView, closest: Seq<Text>) -> TurnView {
    done(
        provided(
            closest.len() > 0 && closest[0] != node.local_id,
            seq![tell(MessageType::RequestMessage, Seq::empty(), Some(closest[0]))],
        ),
    )
}

/// What a node does before it ends.
pub open spec fn farewell(node: NodeView) -> TurnView {
    TurnView {
        actions: seq![
            tell(MessageType::PeerDisconnected, node.local_id, None),
            ActionView::Pause(SHUTDOWN_PAUSE),
        ],
        next: NextView::Stop,
    }
}

} // verus!
