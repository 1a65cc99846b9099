//! The node: it keeps track of the peers around it, of the aliases and of whom
//! to listen to, and decides what is to be done about every input.

use vstd::prelude::*;
use crate::aliases::{lists, put_all, AliasTable};
use crate::model::{
    answer, arrival_view, can_handle, departure_view, farewell, forget, fresh, introduction,
    is_authorized, network_description, on_admission, on_closing, on_content, on_departure,
    on_greeting, on_keepers, on_message, on_nearest, on_input, on_network_event, on_received,
    on_state, on_store, on_user_command, peers_told, peers_whitelisted, republish, resolved, tell,
    transmit, upgrade_offers, whitelisting, with_alias, NodeView, RepublishView, CONNECTION_PAUSE,
    SHUTDOWN_PAUSE, WHITELIST_PAUSE,
};
use crate::protocol::{
    alias_views, numbered_type, Alias, AliasView, ControlMessage, MessageType, NetworkState,
    StoreMessage,
};
use crate::text::{
    contains_text, copy_optional_text, copy_texts, insert_text, is_at_or_after, lemma_texts_push,
    optional_text, remove_text, texts, Text,
};
use crate::turn::{
    action_views, add_action, ask, done, result_view, Action, ActionView, Input, NetworkEvent, Next,
    Question, ReceiveError, Reply, ReplyView, Turn, UserCommand,
};

verus! {

/// A node of the network.
#[derive(Debug)]
pub struct Management {
    local_id: String,
    version: Option<String>,
    upgrade_port: String,
    authorized_senders: Vec<String>,
    aliases: AliasTable,
    alias: String,
    discovered_peers: Vec<String>,
    rejected_peers: Vec<String>,
    connected_peers: Vec<String>,
    listening_addrs: Vec<String>,
    upgrade_in_progress: bool,
}

impl View for Management {
    type V = NodeView;

    closed spec fn view(&self) -> NodeView {
        NodeView {
            local_id: self.local_id@,
            version: optional_text(self.version),
            upgrade_port: self.upgrade_port@,
            authorized_senders: texts(self.authorized_senders@),
            aliases: self.aliases@,
            alias: self.alias@,
            discovered_peers: texts(self.discovered_peers@),
            rejected_peers: texts(self.rejected_peers@),
            connected_peers: texts(self.connected_peers@),
            listening_addrs: texts(self.listening_addrs@),
            upgrade_in_progress: self.upgrade_in_progress,
        }
    }
}

/// The turn without actions.
fn nothing() -> (turn: Turn)
    ensures
        turn@ == done(seq![]),
{
    let turn: Turn = Turn { actions: Vec::new(), next: Next::Wait };
    assert(turn@ =~= done(seq![]));
    turn
}

/// The turn of a single action.
fn single(action: Action) -> (turn: Turn)
    ensures
        turn@ == done(seq![action@]),
{
    let mut actions: Vec<Action> = Vec::new();
    add_action(&mut actions, action);
    let turn: Turn = Turn { actions, next: Next::Wait };
    assert(turn@ =~= done(seq![action@]));
    turn
}

/// The turn of a single question.
fn inquire(question: Question) -> (turn: Turn)
    ensures
        turn@ == ask(seq![], question@),
{
    let turn: Turn = Turn { actions: Vec::new(), next: Next::Ask(question) };
    assert(turn@ =~= ask(seq![], question@));
    turn
}

/// A message that carries nothing but a payload.
fn tell_action(message_type: MessageType, payload: String, target: Option<String>) -> (action:
    Action)
    ensures
        action@ == tell(message_type, payload@, optional_text(target)),
{
    Management::send(&ControlMessage::new(message_type, payload), target)
}

/// Puts the requests to keep `content` at the end of `actions`.
fn add_republish(actions: &mut Vec<Action>, target: &String, content: &Vec<StoreMessage>)
    ensures
        action_views(final(actions)@) == action_views(old(actions)@) + republish(
            RepublishView { target: target@, content: content@.map_values(|m: StoreMessage| m@) },
        ),
{
    let ghost all = content@.map_values(|m: StoreMessage| m@);
    let ghost start = action_views(actions@);
    let mut i: usize = 0;
    assert(start + republish(RepublishView { target: target@, content: all.take(0) }) =~= start);
    while i < content.len()
        invariant
            i <= content.len(),
            all == content@.map_values(|m: StoreMessage| m@),
            action_views(actions@) == start + republish(
                RepublishView { target: target@, content: all.take(i as int) },
            ),
        decreases content.len() - i,
    {
        let ghost before = republish(
            RepublishView { target: target@, content: all.take(i as int) },
        );
        let receiver: Option<String> = copy_optional_text(&content[i].receiver);
        let msg: ControlMessage = ControlMessage::store(receiver, content[i].data.clone());
        let action: Action = Management::send(&msg, Some(target.clone()));
        proof {
            assert(all[i as int] == content@[i as int]@);
            assert(republish(RepublishView { target: target@, content: all.take(i + 1) })
                =~= before.push(action@));
            assert((start + before).push(action@) =~= start + before.push(action@));
        }
        add_action(actions, action);
        i += 1;
    }
    assert(all.take(all.len() as int) =~= all);
}

impl Management {
    /// A node with the identity `local_id` that runs a program of the given
    /// version, in a network whose nodes serve their program at `upgrade_port`.
    pub fn new(local_id: String, version: Option<String>, upgrade_port: String) -> (node:
        Management)
        ensures
            node@ == fresh(local_id@, optional_text(version), upgrade_port@),
    {
        let node: Management = Management {
            local_id,
            version,
            upgrade_port,
            authorized_senders: Vec::new(),
            aliases: AliasTable::new(),
            alias: String::new(),
            discovered_peers: Vec::new(),
            rejected_peers: Vec::new(),
            connected_peers: Vec::new(),
            listening_addrs: Vec::new(),
            upgrade_in_progress: false,
        };
        assert(node@ =~= fresh(local_id@, optional_text(version), upgrade_port@));
        node
    }

    /// The bytes of a message, for one peer or for the whole network.
    pub fn send(msg: &ControlMessage, target: Option<String>) -> (action: Action)
        requires
            numbered_type(msg.message_type) is Some,
        ensures
            action@ == transmit(msg@, optional_text(target)),
    {
        Action::Transmit { target, data: msg.encode_to_vec() }
    }

    /// What is done when the node comes up.
    pub fn start(&self) -> (turn: Turn)
        ensures
            turn@ == done(seq![ActionView::Display("Initializing"@)]),
    {
        single(Action::Display("Initializing".to_string()))
    }

    /// What is done before the node ends.
    pub fn shutdown(&self) -> (turn: Turn)
        ensures
            turn@ == farewell(self@),
    {
        let mut actions: Vec<Action> = Vec::new();
        add_action(
            &mut actions,
            tell_action(MessageType::PeerDisconnected, self.local_id.clone(), None),
        );
        add_action(&mut actions, Action::Pause(SHUTDOWN_PAUSE));
        let turn: Turn = Turn { actions, next: Next::Stop };
        assert(turn@ =~= farewell(self@));
        turn
    }

    /// Puts the node's alias and version for `peer` at the end of `actions`.
    fn add_introduction(&self, actions: &mut Vec<Action>, peer: &String)
        ensures
            action_views(final(actions)@) == action_views(old(actions)@) + introduction(
                self@,
                peer@,
            ),
    {
        if !self.alias.as_str().is_empty() {
            add_action(
                actions,
                tell_action(MessageType::PublishAlias, self.alias.clone(), Some(peer.clone())),
            );
        }
        match &self.version {
            Some(version) => add_action(
                actions,
                tell_action(
                    MessageType::NetworkBinaryVersion,
                    version.clone(),
                    Some(peer.clone()),
                ),
            ),
            None => {},
        }
        assert(action_views(actions@) =~= action_views(old(actions)@) + introduction(
            self@,
            peer@,
        ));
    }

    /// Notes the connection to `peer`.
    fn connect(&mut self, peer: String)
        ensures
            final(self)@ == crate::model::connect(old(self)@, peer@),
    {
        remove_text(&mut self.rejected_peers, &peer);
        insert_text(&mut self.connected_peers, peer);
        assert(self@ =~= crate::model::connect(old(self)@, peer@));
    }

    /// Takes `peer` out of the lists of peers.
    fn forget(&mut self, peer: &String)
        ensures
            final(self)@ == forget(old(self)@, peer@),
    {
        remove_text(&mut self.connected_peers, peer);
        remove_text(&mut self.rejected_peers, peer);
        remove_text(&mut self.discovered_peers, peer);
        assert(self@ =~= forget(old(self)@, peer@));
    }

    /// Handles an event of the network layer.
    pub fn handle_network_event(&mut self, event: NetworkEvent) -> (turn: Turn)
        ensures
            (final(self)@, turn@) == on_network_event(old(self)@, event),
    {
        match event {
            NetworkEvent::PeerDiscovered { peer } => {
                insert_text(&mut self.discovered_peers, peer);
                assert(self@ =~= on_network_event(old(self)@, event).0);
                nothing()
            },
            NetworkEvent::ConnectionEstablished { peer } => {
                let mut actions: Vec<Action> = Vec::new();
                add_action(&mut actions, Action::Pause(CONNECTION_PAUSE));
                assert(action_views(actions@) =~= seq![ActionView::Pause(CONNECTION_PAUSE)]);
                if self.connected_peers.is_empty() {
                    let turn: Turn = Turn { actions, next: Next::Ask(Question::Greeting { peer }) };
                    return turn;
                }
                self.add_introduction(&mut actions, &peer);
                self.connect(peer);
                Turn { actions, next: Next::Wait }
            },
            NetworkEvent::ConnectionClosed { peer } => inquire(Question::Closing { peer }),
            NetworkEvent::ConnectionRejected { peer } => {
                insert_text(&mut self.rejected_peers, peer);
                assert(self@ =~= on_network_event(old(self)@, event).0);
                nothing()
            },
            NetworkEvent::PeerExpired { peer } => {
                self.forget(&peer);
                nothing()
            },
            NetworkEvent::NewListenAddress { addr } => {
                insert_text(&mut self.listening_addrs, addr);
                assert(self@ =~= on_network_event(old(self)@, event).0);
                nothing()
            },
        }
    }

    /// Goes on with the first connection when the whitelist is known.
    pub fn greet(&mut self, peer: String, whitelisted: &Vec<String>) -> (turn: Turn)
        ensures
            (final(self)@, turn@) == on_greeting(old(self)@, peer@, texts(whitelisted@)),
    {
        let mut actions: Vec<Action> = Vec::new();
        if whitelisted.is_empty() {
            add_action(
                &mut actions,
                tell_action(MessageType::PeerConnected, self.local_id.clone(), None),
            );
            add_action(
                &mut actions,
                tell_action(
                    MessageType::NetworkSolicitation,
                    String::new(),
                    Some(peer.clone()),
                ),
            );
        }
        self.add_introduction(&mut actions, &peer);
        self.connect(peer);
        let turn: Turn = Turn { actions, next: Next::Wait };
        assert(turn@ =~= on_greeting(old(self)@, peer@, texts(whitelisted@)).1);
        turn
    }

    /// Goes on with a closed connection when the online peers are known.
    pub fn close(&mut self, peer: String, online: &Vec<String>) -> (turn: Turn)
        ensures
            (final(self)@, turn@) == on_closing(old(self)@, peer@, texts(online@)),
    {
        if !contains_text(online, &peer) {
            self.forget(&peer);
            return nothing();
        }
        let msg: ControlMessage = ControlMessage::new(MessageType::PeerDisconnected, peer.clone());
        let mut actions: Vec<Action> = Vec::new();
        add_action(&mut actions, Management::send(&msg, None));
        if peer == self.local_id {
            add_action(
                &mut actions,
                tell_action(MessageType::PeerConnected, self.local_id.clone(), None),
            );
            self.forget(&peer);
            let turn: Turn = Turn { actions, next: Next::Wait };
            assert(turn@ =~= on_closing(old(self)@, peer@, texts(online@)).1);
            return turn;
        }
        let turn: Turn = Turn {
            actions,
            next: Next::Ask(Question::Departure { peer, closing: true }),
        };
        assert(turn@ =~= on_closing(old(self)@, peer@, texts(online@)).1);
        turn
    }

    /// Goes on when it is known what a peer that went offline leaves behind.
    pub fn depart(
        &mut self,
        peer: String,
        closing: bool,
        handed: Option<(String, Vec<(String, String)>)>,
    ) -> (turn: Turn)
        ensures
            (final(self)@, turn@) == on_departure(
                old(self)@,
                peer@,
                closing,
                departure_view(handed),
            ),
    {
        let mut actions: Vec<Action> = Vec::new();
        match &handed {
            Some((target, pieces)) => {
                let mut content: Vec<StoreMessage> = Vec::new();
                let mut i: usize = 0;
                while i < pieces.len()
                    invariant
                        i <= pieces.len(),
                        content@.len() == i,
                        forall|j: int|
                            0 <= j < i ==> (#[trigger] content@[j])@.receiver == Some(
                                pieces@[j].0@,
                            ) && content@[j]@.data == pieces@[j].1@,
                    decreases pieces.len() - i,
                {
                    content.push(
                        StoreMessage {
                            receiver: Some(pieces[i].0.clone()),
                            data: pieces[i].1.clone(),
                        },
                    );
                    i += 1;
                }
                add_republish(&mut actions, target, &content);
                assert(content@.map_values(|m: StoreMessage| m@) =~= departure_view(
                    handed,
                )->0.content);
            },
            None => {},
        }
        if closing {
            self.forget(&peer);
        }
        let turn: Turn = Turn { actions, next: Next::Wait };
        assert(turn@ =~= on_departure(old(self)@, peer@, closing, departure_view(handed)).1);
        turn
    }

    /// Goes on when it is known what a peer that came online has to keep.
    pub fn arrive(&self, handed: Option<(String, Vec<(Option<String>, String)>)>) -> (turn: Turn)
        ensures
            turn@ == done(crate::model::republish_any(arrival_view(handed))),
    {
        let mut actions: Vec<Action> = Vec::new();
        match &handed {
            Some((target, pieces)) => {
                let mut content: Vec<StoreMessage> = Vec::new();
                let mut i: usize = 0;
                while i < pieces.len()
                    invariant
                        i <= pieces.len(),
                        content@.len() == i,
                        forall|j: int|
                            0 <= j < i ==> (#[trigger] content@[j])@.receiver == optional_text(
                                pieces@[j].0,
                            ) && content@[j]@.data == pieces@[j].1@,
                    decreases pieces.len() - i,
                {
                    content.push(
                        StoreMessage {
                            receiver: copy_optional_text(&pieces[i].0),
                            data: pieces[i].1.clone(),
                        },
                    );
                    i += 1;
                }
                add_republish(&mut actions, target, &content);
                assert(content@.map_values(|m: StoreMessage| m@) =~= arrival_view(
                    handed,
                )->0.content);
            },
            None => {},
        }
        let turn: Turn = Turn { actions, next: Next::Wait };
        assert(turn@ =~= done(crate::model::republish_any(arrival_view(handed))));
        turn
    }

    /// Has `new_peer` whitelisted by this node and by all others.
    pub fn whitelist_peer(&self, new_peer: String) -> (turn: Turn)
        ensures
            turn@ == done(whitelisting(self@, new_peer@)),
    {
        let msg: ControlMessage = ControlMessage::new(
            MessageType::AddWhitelistPeer,
            new_peer.clone(),
        );
        let mut actions: Vec<Action> = Vec::new();
        add_action(&mut actions, Action::AddWhitelisted(self.local_id.clone()));
        add_action(&mut actions, Action::AddWhitelisted(new_peer));
        add_action(&mut actions, Action::Pause(WHITELIST_PAUSE));
        add_action(&mut actions, Management::send(&msg, None));
        add_action(&mut actions, Action::Pause(WHITELIST_PAUSE));
        let turn: Turn = Turn { actions, next: Next::Wait };
        assert(turn@ =~= done(whitelisting(self@, new_peer@)));
        turn
    }

    /// Goes on with the wish to whitelist `peer` when the whitelist is known.
    pub fn whitelist_new(&self, peer: String, whitelisted: &Vec<String>) -> (turn: Turn)
        ensures
            turn@ == on_admission(self@, peer@, texts(whitelisted@)),
    {
        if contains_text(whitelisted, &peer) {
            return nothing();
        }
        self.whitelist_peer(peer)
    }

    /// Goes on with a message for `peer` when it is known who keeps it.
    pub fn keep(&self, peer: String, message: String, closest: &Vec<String>) -> (turn: Turn)
        ensures
            turn@ == done(on_keepers(self@, peer@, message@, texts(closest@))),
    {
        let ghost all = texts(closest@);
        let mut actions: Vec<Action> = Vec::new();
        let mut i: usize = 0;
        assert(action_views(actions@) =~= on_keepers(self@, peer@, message@, all.take(0)));
        while i < closest.len()
            invariant
                i <= closest.len(),
                all == texts(closest@),
                action_views(actions@) == on_keepers(self@, peer@, message@, all.take(i as int)),
            decreases closest.len() - i,
        {
            let ghost before = action_views(actions@);
            assert(all[i as int] == closest@[i as int]@);
            if closest[i] == self.local_id {
                add_action(
                    &mut actions,
                    Action::Store { receiver: peer.clone(), data: message.clone() },
                );
            } else {
                let msg: ControlMessage = ControlMessage::store(
                    Some(peer.clone()),
                    message.clone(),
                );
                add_action(&mut actions, Management::send(&msg, Some(closest[i].clone())));
            }
            assert(action_views(actions@) =~= on_keepers(
                self@,
                peer@,
                message@,
                all.take(i + 1),
            ));
            i += 1;
        }
        assert(all.take(all.len() as int) =~= all);
        Turn { actions, next: Next::Wait }
    }

    /// Goes on with the question for the node's identity.
    pub fn tell_peer_id(&self, peer_id: String) -> (turn: Turn)
        ensures
            turn@ == answer(ReplyView::Text(peer_id@)),
    {
        single(Action::Answer(Reply::Text(peer_id)))
    }

    /// Handles a command of the user.
    pub fn handle_user_command(&mut self, command: UserCommand) -> (turn: Turn)
        ensures
            (final(self)@, turn@) == on_user_command(old(self)@, command),
    {
        match command {
            UserCommand::SendMsg { peer, message } => match peer {
                None => {
                    let mut actions: Vec<Action> = Vec::new();
                    add_action(&mut actions, Action::StoreBroadcast(message.clone()));
                    add_action(
                        &mut actions,
                        tell_action(MessageType::DisplayMessage, message, None),
                    );
                    let turn: Turn = Turn { actions, next: Next::Wait };
                    assert(turn@ =~= on_user_command(old(self)@, command).1);
                    turn
                },
                Some(peer) => {
                    let mut actions: Vec<Action> = Vec::new();
                    add_action(
                        &mut actions,
                        tell_action(
                            MessageType::DisplayMessage,
                            message.clone(),
                            Some(peer.clone()),
                        ),
                    );
                    let turn: Turn = Turn {
                        actions,
                        next: Next::Ask(Question::Keepers { peer, message }),
                    };
                    assert(turn@ =~= on_user_command(old(self)@, command).1);
                    turn
                },
            },
            UserCommand::Whitelist(peer) => inquire(Question::Admission { peer }),
            UserCommand::Authorize(peer) => {
                proof {
                    lemma_texts_push(self.authorized_senders@, peer);
                }
                self.authorized_senders.push(peer.clone());
                assert(self@ =~= on_user_command(old(self)@, command).0);
                single(tell_action(MessageType::AddWhitelistSender, peer, None))
            },
            UserCommand::Alias(alias) => {
                let turn: Turn = single(
                    tell_action(MessageType::PublishAlias, alias.clone(), None),
                );
                self.alias = alias;
                turn
            },
            UserCommand::UpgradeSelf(addr) => single(Action::UpgradeBinary(addr)),
            UserCommand::Upgrade(peer, addr) => {
                let target: Option<String> = if peer.as_str().is_empty() {
                    None
                } else {
                    Some(peer)
                };
                single(tell_action(MessageType::Upgrade, addr, target))
            },
            UserCommand::Serve(path) => single(Action::Serve(path)),
            UserCommand::ServeStop => single(Action::StopServing),
            UserCommand::GetPeerId => inquire(Question::PeerId),
            UserCommand::GetAlias => single(Action::Answer(Reply::Text(self.alias.clone()))),
            UserCommand::GetAliases => single(Action::Answer(Reply::Aliases(self.aliases.entries()))),
            UserCommand::GetDiscovered => single(
                Action::Answer(Reply::Peers(copy_texts(&self.discovered_peers))),
            ),
            UserCommand::GetConnected => single(
                Action::Answer(Reply::Peers(copy_texts(&self.connected_peers))),
            ),
            UserCommand::GetRejected => single(
                Action::Answer(Reply::Peers(copy_texts(&self.rejected_peers))),
            ),
        }
    }

    /// What `id` stands for in the alias table, or `id` itself.
    pub fn resolve_alias(&self, id: String) -> (name: String)
        ensures
            name@ == resolved(self@.aliases, id@),
    {
        match self.aliases.get(&id) {
            Some(name) => name,
            None => id,
        }
    }

    /// Whether the node takes messages from `sender`.
    pub fn listens_to(&self, sender: &String) -> (listens: bool)
        ensures
            listens == is_authorized(self@, sender@),
    {
        self.authorized_senders.is_empty() || *sender == self.local_id || contains_text(
            &self.authorized_senders,
            sender,
        )
    }

    /// Gives `alias` to `sender` in place of its previous one, unless it is taken.
    fn give_alias(&mut self, alias: String, sender: String)
        ensures
            final(self)@ == (NodeView {
                aliases: with_alias(old(self)@.aliases, alias@, sender@),
                ..old(self)@
            }),
    {
        if self.aliases.contains_key(&alias) {
            return ;
        }
        self.aliases.remove_value(&sender);
        self.aliases.insert(alias, sender);
    }

    /// The offer of the program to `sender`, at every address.
    fn offer_upgrade(&self, sender: &String) -> (turn: Turn)
        ensures
            turn@ == done(
                seq![ActionView::ServeBinaryOnce] + upgrade_offers(
                    self@.listening_addrs,
                    self@.upgrade_port,
                    sender@,
                ),
            ),
    {
        let ghost all = texts(self.listening_addrs@);
        let ghost port = self.upgrade_port@;
        let ghost start = seq![ActionView::ServeBinaryOnce];
        let mut actions: Vec<Action> = Vec::new();
        add_action(&mut actions, Action::ServeBinaryOnce);
        assert(action_views(actions@) =~= start + upgrade_offers(all.take(0), port, sender@));
        let mut i: usize = 0;
        while i < self.listening_addrs.len()
            invariant
                i <= self.listening_addrs.len(),
                all == texts(self.listening_addrs@),
                port == self.upgrade_port@,
                action_views(actions@) == start + upgrade_offers(
                    all.take(i as int),
                    port,
                    sender@,
                ),
            decreases self.listening_addrs.len() - i,
        {
            let mut addr: String = self.listening_addrs[i].clone();
            addr.append(":");
            addr.append(self.upgrade_port.as_str());
            assert(all[i as int] == self.listening_addrs@[i as int]@);
            add_action(
                &mut actions,
                tell_action(MessageType::Upgrade, addr, Some(sender.clone())),
            );
            assert(action_views(actions@) =~= start + upgrade_offers(
                all.take(i + 1),
                port,
                sender@,
            ));
            i += 1;
        }
        assert(all.take(all.len() as int) =~= all);
        Turn { actions, next: Next::Wait }
    }

    /// Takes in news of the network.
    fn learn(&mut self, state: NetworkState) -> (turn: Turn)
        ensures
            (final(self)@, turn@) == on_state(old(self)@, state@),
    {
        let ghost connected = texts(state.connected@);
        let ghost whitelisted = texts(state.whitelisted@);
        let ghost senders = texts(state.whitelisted_sender@);
        let ghost aliases = alias_views(state.aliases@);
        let mut actions: Vec<Action> = Vec::new();
        let mut i: usize = 0;
        assert(action_views(actions@) =~= peers_told(connected.take(0)));
        while i < state.connected.len()
            invariant
                i <= state.connected.len(),
                connected == texts(state.connected@),
                action_views(actions@) == peers_told(connected.take(i as int)),
            decreases state.connected.len() - i,
        {
            assert(connected[i as int] == state.connected@[i as int]@);
            add_action(&mut actions, Action::AddPeer(state.connected[i].clone()));
            assert(action_views(actions@) =~= peers_told(connected.take(i + 1)));
            i += 1;
        }
        assert(connected.take(connected.len() as int) =~= connected);
        let ghost told = peers_told(connected);
        assert(action_views(actions@) =~= told + peers_whitelisted(whitelisted.take(0)));
        i = 0;
        while i < state.whitelisted.len()
            invariant
                i <= state.whitelisted.len(),
                whitelisted == texts(state.whitelisted@),
                action_views(actions@) == told + peers_whitelisted(whitelisted.take(i as int)),
            decreases state.whitelisted.len() - i,
        {
            assert(whitelisted[i as int] == state.whitelisted@[i as int]@);
            add_action(&mut actions, Action::AddWhitelisted(state.whitelisted[i].clone()));
            assert(action_views(actions@) =~= told + peers_whitelisted(whitelisted.take(i + 1)));
            i += 1;
        }
        assert(whitelisted.take(whitelisted.len() as int) =~= whitelisted);
        let ghost start = *old(self);
        i = 0;
        assert(texts(self.authorized_senders@) =~= start@.authorized_senders + senders.take(0));
        while i < state.whitelisted_sender.len()
            invariant
                i <= state.whitelisted_sender.len(),
                senders == texts(state.whitelisted_sender@),
                self@ == (NodeView {
                    authorized_senders: start@.authorized_senders + senders.take(i as int),
                    ..start@
                }),
            decreases state.whitelisted_sender.len() - i,
        {
            let sender: String = state.whitelisted_sender[i].clone();
            proof {
                lemma_texts_push(self.authorized_senders@, sender);
                assert(senders.take(i + 1) =~= senders.take(i as int).push(sender@));
                assert((start@.authorized_senders + senders.take(i as int)).push(sender@)
                    =~= start@.authorized_senders + senders.take(i + 1));
            }
            self.authorized_senders.push(sender);
            i += 1;
        }
        assert(senders.take(senders.len() as int) =~= senders);
        let ghost middle = self@;
        i = 0;
        assert(aliases.take(0) =~= seq![]);
        while i < state.aliases.len()
            invariant
                i <= state.aliases.len(),
                aliases == alias_views(state.aliases@),
                self@ == (NodeView {
                    aliases: put_all(middle.aliases, aliases.take(i as int)),
                    ..middle
                }),
            decreases state.aliases.len() - i,
        {
            assert(aliases.take(i + 1).drop_last() =~= aliases.take(i as int));
            assert(aliases.take(i + 1).last() == state.aliases@[i as int]@);
            self.aliases.insert(state.aliases[i].peer.clone(), state.aliases[i].alias.clone());
            i += 1;
        }
        assert(aliases.take(aliases.len() as int) =~= aliases);
        let turn: Turn = Turn {
            actions,
            next: Next::Ask(Question::Nearest { peer: self.local_id.clone() }),
        };
        assert(turn@ =~= on_state(start@, state@).1);
        turn
    }

    /// What is done with content that the node is asked to keep.
    fn take_content(message: Option<StoreMessage>) -> (turn: Turn)
        ensures
            turn@ == done(on_store(crate::protocol::optional_store(message))),
    {
        match message {
            None => nothing(),
            Some(StoreMessage { receiver, data }) => match receiver {
                Some(receiver) => single(Action::Store { receiver, data }),
                None => single(Action::StoreBroadcast(data)),
            },
        }
    }

    /// Handles a message of another node, or of the node itself.
    pub fn handle_message(&mut self, sender: String, msg: ControlMessage, broadcasted: bool) -> (turn:
        Turn)
        requires
            can_handle(old(self)@, sender@, msg@),
        ensures
            (final(self)@, turn@) == on_message(old(self)@, sender@, msg@, broadcasted),
    {
        if !self.listens_to(&sender) {
            return nothing();
        }
        match MessageType::from_i32(msg.message_type) {
            Some(MessageType::DisplayMessage) => {
                let mut actions: Vec<Action> = Vec::new();
                if broadcasted {
                    add_action(&mut actions, Action::StoreBroadcast(msg.payload.clone()));
                }
                add_action(&mut actions, Action::Display(msg.payload));
                let turn: Turn = Turn { actions, next: Next::Wait };
                assert(turn@ =~= on_message(old(self)@, sender@, msg@, broadcasted).1);
                turn
            },
            Some(MessageType::AddWhitelistPeer) => single(Action::AddWhitelisted(msg.payload)),
            Some(MessageType::AddWhitelistSender) => {
                proof {
                    lemma_texts_push(self.authorized_senders@, msg.payload);
                }
                self.authorized_senders.push(msg.payload);
                nothing()
            },
            Some(MessageType::PublishAlias) => {
                self.give_alias(msg.payload, sender);
                nothing()
            },
            Some(MessageType::NetworkSolicitation) => inquire(Question::NetworkState { sender }),
            Some(MessageType::Upgrade) => single(Action::UpgradeBinary(msg.payload)),
            Some(MessageType::RequestUpgrade) => {
                if self.upgrade_in_progress {
                    return nothing();
                }
                self.offer_upgrade(&sender)
            },
            Some(MessageType::NetworkBinaryVersion) => {
                let current: bool = match &self.version {
                    Some(version) => is_at_or_after(version, &msg.payload),
                    None => false,
                };
                if current || self.upgrade_in_progress {
                    return nothing();
                }
                self.upgrade_in_progress = true;
                single(tell_action(MessageType::RequestUpgrade, String::new(), Some(sender)))
            },
            Some(MessageType::PeerConnected) => inquire(Question::Arrival { peer: msg.payload }),
            Some(MessageType::PeerDisconnected) => {
                if msg.payload == self.local_id {
                    // A connection that timed out may make the network take this
                    // node for offline: tell it otherwise.
                    return single(
                        tell_action(MessageType::PeerConnected, self.local_id.clone(), None),
                    );
                }
                inquire(Question::Departure { peer: msg.payload, closing: false })
            },
            Some(MessageType::RequestMessage) => inquire(Question::Content { receiver: sender }),
            Some(MessageType::StoreMessage) => Management::take_content(msg.message),
            Some(MessageType::State) => match msg.state {
                Some(state) => self.learn(state),
                None => nothing(),
            },
            None => nothing(),
        }
    }

    /// Handles bytes that `sender` has sent. Nothing changes where they hold no
    /// message that can be handled.
    pub fn network_receive(&mut self, sender: String, data: &[u8], broadcasted: bool) -> (result:
        Result<Turn, ReceiveError>)
        ensures
            (final(self)@, result_view(result)) == on_received(
                old(self)@,
                sender@,
                data@,
                broadcasted,
            ),
    {
        match ControlMessage::decode(data) {
            Err(_) => Err(ReceiveError::Undecodable),
            Ok(msg) => {
                match MessageType::from_i32(msg.message_type) {
                    None => {
                        return Err(ReceiveError::UnknownType);
                    },
                    Some(MessageType::State) => {
                        if msg.state.is_none() && self.listens_to(&sender) {
                            return Err(ReceiveError::MissingState);
                        }
                    },
                    Some(_) => {},
                }
                Ok(self.handle_message(sender, msg, broadcasted))
            },
        }
    }

    /// Goes on with the question for the state of the network when the online
    /// peers and the whitelist are known.
    pub fn describe_network(
        &self,
        sender: String,
        online: Vec<String>,
        whitelisted: Vec<String>,
    ) -> (turn: Turn)
        ensures
            exists|aliases: Seq<AliasView>| #[trigger]
                lists(aliases, self@.aliases) && turn@ == network_description(
                    self@,
                    sender@,
                    texts(online@),
                    texts(whitelisted@),
                    aliases,
                ),
    {
        let aliases: Vec<Alias> = self.aliases.entries();
        assert(lists(alias_views(aliases@), self@.aliases));
        let state: NetworkState = NetworkState {
            whitelisted,
            connected: online,
            whitelisted_sender: copy_texts(&self.authorized_senders),
            aliases,
        };
        let msg: ControlMessage = ControlMessage::network_state(state);
        single(Management::send(&msg, Some(sender)))
    }

    /// Goes on with the question of `receiver` for its content.
    pub fn deliver(&self, receiver: String, content: Option<String>) -> (turn: Turn)
        ensures
            turn@ == on_content(receiver@, optional_text(content)),
    {
        match content {
            Some(content) => single(
                tell_action(MessageType::DisplayMessage, content, Some(receiver)),
            ),
            None => nothing(),
        }
    }

    /// Goes on when it is known who is closest to this node.
    pub fn fetch_missed(&self, closest: &Vec<String>) -> (turn: Turn)
        ensures
            turn@ == on_nearest(self@, texts(closest@)),
    {
        if closest.len() > 0 {
            assert(texts(closest@)[0] == closest@[0]@);
            if closest[0] != self.local_id {
                return single(
                    tell_action(
                        MessageType::RequestMessage,
                        String::new(),
                        Some(closest[0].clone()),
                    ),
                );
            }
        }
        nothing()
    }

    /// One turn of the node: handles whatever comes next. Where no more commands
    /// can come, the node ends.
    pub fn run(&mut self, input: Input) -> (result: Result<Turn, ReceiveError>)
        ensures
            (final(self)@, result_view(result)) == on_input(old(self)@, input),
    {
        match input {
            Input::Received { sender, data, broadcasted } => self.network_receive(
                sender,
                data.as_slice(),
                broadcasted,
            ),
            Input::Command(command) => Ok(self.handle_user_command(command)),
            Input::CommandsClosed => Ok(self.shutdown()),
            Input::Event(event) => Ok(self.handle_network_event(event)),
        }
    }
}

} // verus!
