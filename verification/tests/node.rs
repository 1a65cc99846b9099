use management::management::Management;
use management::protocol::{Alias, ControlMessage, MessageType, NetworkState, StoreMessage};
use management::turn::{
    Action, Input, NetworkEvent, Next, Question, ReceiveError, Reply, Turn, UserCommand,
};

fn text(s: &str) -> String {
    s.to_string()
}

fn list(items: &[&str]) -> Vec<String> {
    items.iter().map(|s| text(s)).collect()
}

fn node() -> Management {
    Management::new(text("me"), Some(text("1.0")), text("8000"))
}

fn transmit(msg: ControlMessage, target: Option<&str>) -> Action {
    Action::Transmit { target: target.map(text), data: msg.encode_to_vec() }
}

fn tell(message_type: MessageType, payload: &str, target: Option<&str>) -> Action {
    transmit(ControlMessage::new(message_type, text(payload)), target)
}

fn done(actions: Vec<Action>) -> Turn {
    Turn { actions, next: Next::Wait }
}

fn ask(actions: Vec<Action>, question: Question) -> Turn {
    Turn { actions, next: Next::Ask(question) }
}

fn peers(node: &mut Management, command: UserCommand) -> Vec<String> {
    let turn = node.handle_user_command(command);
    match &turn.actions[0] {
        Action::Answer(Reply::Peers(peers)) => peers.clone(),
        other => panic!("{:?}", other),
    }
}

fn alias_entries(node: &mut Management) -> Vec<(String, String)> {
    let turn = node.handle_user_command(UserCommand::GetAliases);
    match &turn.actions[0] {
        Action::Answer(Reply::Aliases(entries)) => {
            let mut pairs: Vec<(String, String)> =
                entries.iter().map(|e| (e.peer.clone(), e.alias.clone())).collect();
            pairs.sort();
            pairs
        }
        other => panic!("{:?}", other),
    }
}

fn receive(node: &mut Management, sender: &str, message_type: MessageType, payload: &str) -> Turn {
    node.handle_message(text(sender), ControlMessage::new(message_type, text(payload)), false)
}

#[test]
fn start_shows_a_greeting() {
    assert_eq!(node().start(), done(vec![Action::Display(text("Initializing"))]));
}

#[test]
fn discovered_peers_are_listed_once() {
    let mut node = node();
    for peer in ["a", "b", "a"] {
        let turn = node.handle_network_event(NetworkEvent::PeerDiscovered { peer: text(peer) });
        assert_eq!(turn, done(vec![]));
    }
    assert_eq!(peers(&mut node, UserCommand::GetDiscovered), list(&["a", "b"]));
}

#[test]
fn rejected_peers_are_listed_once() {
    let mut node = node();
    for peer in ["a", "a", "b"] {
        node.handle_network_event(NetworkEvent::ConnectionRejected { peer: text(peer) });
    }
    assert_eq!(peers(&mut node, UserCommand::GetRejected), list(&["a", "b"]));
}

#[test]
fn first_connection_enters_the_network() {
    let mut node = node();
    node.handle_network_event(NetworkEvent::ConnectionRejected { peer: text("a") });
    let turn = node.handle_network_event(NetworkEvent::ConnectionEstablished { peer: text("a") });
    assert_eq!(
        turn,
        ask(vec![Action::Pause(500)], Question::Greeting { peer: text("a") })
    );
    assert!(peers(&mut node, UserCommand::GetConnected).is_empty());
    let turn = node.greet(text("a"), &vec![]);
    assert_eq!(
        turn,
        done(vec![
            tell(MessageType::PeerConnected, "me", None),
            tell(MessageType::NetworkSolicitation, "", Some("a")),
            tell(MessageType::NetworkBinaryVersion, "1.0", Some("a")),
        ])
    );
    assert_eq!(peers(&mut node, UserCommand::GetConnected), list(&["a"]));
    assert!(peers(&mut node, UserCommand::GetRejected).is_empty());
}

#[test]
fn whitelisted_network_is_not_entered() {
    let mut node = Management::new(text("me"), None, text("8000"));
    node.handle_user_command(UserCommand::Alias(text("nick")));
    node.handle_network_event(NetworkEvent::ConnectionEstablished { peer: text("a") });
    let turn = node.greet(text("a"), &list(&["x"]));
    assert_eq!(turn, done(vec![tell(MessageType::PublishAlias, "nick", Some("a"))]));
}

#[test]
fn later_connections_are_noted_at_once() {
    let mut node = node();
    node.greet(text("a"), &vec![]);
    let turn = node.handle_network_event(NetworkEvent::ConnectionEstablished { peer: text("b") });
    assert_eq!(
        turn,
        done(vec![
            Action::Pause(500),
            tell(MessageType::NetworkBinaryVersion, "1.0", Some("b")),
        ])
    );
    node.handle_network_event(NetworkEvent::ConnectionEstablished { peer: text("a") });
    assert_eq!(peers(&mut node, UserCommand::GetConnected), list(&["a", "b"]));
}

#[test]
fn expired_peer_is_forgotten() {
    let mut node = node();
    node.greet(text("a"), &vec![]);
    for peer in ["a", "b"] {
        node.handle_network_event(NetworkEvent::PeerDiscovered { peer: text(peer) });
        node.handle_network_event(NetworkEvent::ConnectionRejected { peer: text(peer) });
    }
    let turn = node.handle_network_event(NetworkEvent::PeerExpired { peer: text("a") });
    assert_eq!(turn, done(vec![]));
    assert!(peers(&mut node, UserCommand::GetConnected).is_empty());
    assert_eq!(peers(&mut node, UserCommand::GetRejected), list(&["b"]));
    assert_eq!(peers(&mut node, UserCommand::GetDiscovered), list(&["b"]));
}

#[test]
fn closed_connection_of_an_online_peer() {
    let mut node = node();
    node.greet(text("a"), &vec![]);
    let turn = node.handle_network_event(NetworkEvent::ConnectionClosed { peer: text("a") });
    assert_eq!(turn, ask(vec![], Question::Closing { peer: text("a") }));
    let turn = node.close(text("a"), &list(&["b", "a"]));
    assert_eq!(
        turn,
        ask(
            vec![tell(MessageType::PeerDisconnected, "a", None)],
            Question::Departure { peer: text("a"), closing: true }
        )
    );
    assert_eq!(peers(&mut node, UserCommand::GetConnected), list(&["a"]));
    let handed = Some((text("t"), vec![(text("p"), text("1")), (text("q"), text("2"))]));
    let turn = node.depart(text("a"), true, handed);
    assert_eq!(
        turn,
        done(vec![
            transmit(ControlMessage::store(Some(text("p")), text("1")), Some("t")),
            transmit(ControlMessage::store(Some(text("q")), text("2")), Some("t")),
        ])
    );
    assert!(peers(&mut node, UserCommand::GetConnected).is_empty());
}

#[test]
fn closed_connection_of_a_peer_that_is_not_online() {
    let mut node = node();
    node.greet(text("a"), &vec![]);
    assert_eq!(node.close(text("a"), &list(&["b"])), done(vec![]));
    assert!(peers(&mut node, UserCommand::GetConnected).is_empty());
}

#[test]
fn closed_connection_to_itself() {
    let mut node = node();
    node.greet(text("me"), &vec![]);
    let turn = node.close(text("me"), &list(&["me"]));
    assert_eq!(
        turn,
        done(vec![
            tell(MessageType::PeerDisconnected, "me", None),
            tell(MessageType::PeerConnected, "me", None),
        ])
    );
    assert!(peers(&mut node, UserCommand::GetConnected).is_empty());
}

#[test]
fn departed_peer_without_closed_connection_stays_listed() {
    let mut node = node();
    node.greet(text("a"), &vec![]);
    let turn = receive(&mut node, "b", MessageType::PeerDisconnected, "a");
    assert_eq!(
        turn,
        ask(vec![], Question::Departure { peer: text("a"), closing: false })
    );
    assert_eq!(node.depart(text("a"), false, None), done(vec![]));
    assert_eq!(peers(&mut node, UserCommand::GetConnected), list(&["a"]));
}

#[test]
fn false_report_is_contradicted() {
    let mut node = node();
    let turn = receive(&mut node, "b", MessageType::PeerDisconnected, "me");
    assert_eq!(turn, done(vec![tell(MessageType::PeerConnected, "me", None)]));
}

#[test]
fn arrived_peer_gets_what_it_has_to_keep() {
    let mut node = node();
    let turn = receive(&mut node, "b", MessageType::PeerConnected, "b");
    assert_eq!(turn, ask(vec![], Question::Arrival { peer: text("b") }));
    let handed = Some((text("b"), vec![(None, text("1")), (Some(text("q")), text("2"))]));
    assert_eq!(
        node.arrive(handed),
        done(vec![
            transmit(ControlMessage::store(None, text("1")), Some("b")),
            transmit(ControlMessage::store(Some(text("q")), text("2")), Some("b")),
        ])
    );
    assert_eq!(node.arrive(None), done(vec![]));
}

#[test]
fn broadcast_is_kept_and_shown() {
    let mut sender = node();
    let turn = sender.handle_user_command(UserCommand::SendMsg { peer: None, message: text("hi") });
    assert_eq!(
        turn,
        done(vec![
            Action::StoreBroadcast(text("hi")),
            tell(MessageType::DisplayMessage, "hi", None),
        ])
    );
    let data = match &turn.actions[1] {
        Action::Transmit { data, .. } => data.clone(),
        other => panic!("{:?}", other),
    };
    let mut receiver = Management::new(text("you"), None, text("8000"));
    assert_eq!(
        receiver.network_receive(text("me"), &data, true),
        Ok(done(vec![Action::StoreBroadcast(text("hi")), Action::Display(text("hi"))]))
    );
    assert_eq!(
        receiver.network_receive(text("me"), &data, false),
        Ok(done(vec![Action::Display(text("hi"))]))
    );
}

#[test]
fn message_for_one_peer_is_kept_by_the_closest() {
    let mut node = node();
    let command = UserCommand::SendMsg { peer: Some(text("a")), message: text("hi") };
    assert_eq!(
        node.handle_user_command(command),
        ask(
            vec![tell(MessageType::DisplayMessage, "hi", Some("a"))],
            Question::Keepers { peer: text("a"), message: text("hi") }
        )
    );
    assert_eq!(
        node.keep(text("a"), text("hi"), &list(&["b", "me", "c"])),
        done(vec![
            transmit(ControlMessage::store(Some(text("a")), text("hi")), Some("b")),
            Action::Store { receiver: text("a"), data: text("hi") },
            transmit(ControlMessage::store(Some(text("a")), text("hi")), Some("c")),
        ])
    );
    assert_eq!(node.keep(text("a"), text("hi"), &vec![]), done(vec![]));
}

#[test]
fn whitelisting_a_peer() {
    let mut node = node();
    assert_eq!(
        node.handle_user_command(UserCommand::Whitelist(text("a"))),
        ask(vec![], Question::Admission { peer: text("a") })
    );
    assert_eq!(node.whitelist_new(text("a"), &list(&["b", "a"])), done(vec![]));
    let news = done(vec![
        Action::AddWhitelisted(text("me")),
        Action::AddWhitelisted(text("a")),
        Action::Pause(200),
        tell(MessageType::AddWhitelistPeer, "a", None),
        Action::Pause(200),
    ]);
    assert_eq!(node.whitelist_new(text("a"), &list(&["b"])), news);
    assert_eq!(node.whitelist_peer(text("a")), news);
    assert_eq!(
        receive(&mut node, "b", MessageType::AddWhitelistPeer, "c"),
        done(vec![Action::AddWhitelisted(text("c"))])
    );
}

#[test]
fn only_authorized_senders_are_heard() {
    let mut node = node();
    assert_eq!(
        receive(&mut node, "b", MessageType::DisplayMessage, "x"),
        done(vec![Action::Display(text("x"))])
    );
    assert_eq!(
        node.handle_user_command(UserCommand::Authorize(text("a"))),
        done(vec![tell(MessageType::AddWhitelistSender, "a", None)])
    );
    assert!(node.listens_to(&text("a")));
    assert!(node.listens_to(&text("me")));
    assert!(!node.listens_to(&text("b")));
    assert_eq!(receive(&mut node, "b", MessageType::DisplayMessage, "x"), done(vec![]));
    assert_eq!(receive(&mut node, "b", MessageType::AddWhitelistSender, "b"), done(vec![]));
    assert!(!node.listens_to(&text("b")));
    assert_eq!(receive(&mut node, "a", MessageType::AddWhitelistSender, "b"), done(vec![]));
    assert!(node.listens_to(&text("b")));
}

#[test]
fn own_alias() {
    let mut node = node();
    assert_eq!(
        node.handle_user_command(UserCommand::Alias(text("nick"))),
        done(vec![tell(MessageType::PublishAlias, "nick", None)])
    );
    assert_eq!(
        node.handle_user_command(UserCommand::GetAlias),
        done(vec![Action::Answer(Reply::Text(text("nick")))])
    );
}

#[test]
fn aliases_of_others() {
    let mut node = node();
    receive(&mut node, "a", MessageType::PublishAlias, "x");
    assert_eq!(alias_entries(&mut node), vec![(text("x"), text("a"))]);
    receive(&mut node, "b", MessageType::PublishAlias, "x");
    assert_eq!(alias_entries(&mut node), vec![(text("x"), text("a"))]);
    receive(&mut node, "a", MessageType::PublishAlias, "x");
    assert_eq!(alias_entries(&mut node), vec![(text("x"), text("a"))]);
    receive(&mut node, "a", MessageType::PublishAlias, "y");
    assert_eq!(alias_entries(&mut node), vec![(text("y"), text("a"))]);
    receive(&mut node, "b", MessageType::PublishAlias, "x");
    assert_eq!(
        alias_entries(&mut node),
        vec![(text("x"), text("b")), (text("y"), text("a"))]
    );
    assert_eq!(node.resolve_alias(text("x")), "b");
    assert_eq!(node.resolve_alias(text("q")), "q");
}

#[test]
fn alias_that_names_a_peer_harms_nobody() {
    let mut node = node();
    receive(&mut node, "B", MessageType::PublishAlias, "A");
    receive(&mut node, "C", MessageType::PublishAlias, "B");
    receive(&mut node, "A", MessageType::PublishAlias, "z");
    assert_eq!(
        alias_entries(&mut node),
        vec![(text("A"), text("B")), (text("B"), text("C")), (text("z"), text("A"))]
    );
}

#[test]
fn state_of_the_network_is_shared() {
    let mut teller = node();
    receive(&mut teller, "a", MessageType::PublishAlias, "x");
    receive(&mut teller, "b", MessageType::PublishAlias, "y");
    teller.handle_user_command(UserCommand::Authorize(text("you")));
    let turn = receive(&mut teller, "you", MessageType::NetworkSolicitation, "");
    assert_eq!(turn, ask(vec![], Question::NetworkState { sender: text("you") }));
    let turn = teller.describe_network(text("you"), list(&["a", "b"]), list(&["w"]));
    let data = match &turn.actions[..] {
        [Action::Transmit { target, data }] => {
            assert_eq!(target, &Some(text("you")));
            data.clone()
        }
        other => panic!("{:?}", other),
    };
    let mut asker = Management::new(text("you"), None, text("8000"));
    receive(&mut asker, "c", MessageType::PublishAlias, "x");
    assert_eq!(
        asker.network_receive(text("me"), &data, false),
        Ok(ask(
            vec![
                Action::AddPeer(text("a")),
                Action::AddPeer(text("b")),
                Action::AddWhitelisted(text("w")),
            ],
            Question::Nearest { peer: text("you") }
        ))
    );
    assert_eq!(
        alias_entries(&mut asker),
        vec![(text("x"), text("a")), (text("y"), text("b"))]
    );
    assert!(!asker.listens_to(&text("me")));
}

#[test]
fn missed_messages_are_asked_for() {
    let node = node();
    assert_eq!(
        node.fetch_missed(&list(&["a", "me"])),
        done(vec![tell(MessageType::RequestMessage, "", Some("a"))])
    );
    assert_eq!(node.fetch_missed(&list(&["me", "a"])), done(vec![]));
    assert_eq!(node.fetch_missed(&vec![]), done(vec![]));
}

#[test]
fn kept_content_is_delivered() {
    let mut node = node();
    let turn = receive(&mut node, "a", MessageType::RequestMessage, "");
    assert_eq!(turn, ask(vec![], Question::Content { receiver: text("a") }));
    assert_eq!(
        node.deliver(text("a"), Some(text("hi"))),
        done(vec![tell(MessageType::DisplayMessage, "hi", Some("a"))])
    );
    assert_eq!(node.deliver(text("a"), None), done(vec![]));
}

#[test]
fn content_to_be_kept() {
    let mut node = node();
    let for_one = ControlMessage::store(Some(text("p")), text("d"));
    assert_eq!(
        node.handle_message(text("a"), for_one, false),
        done(vec![Action::Store { receiver: text("p"), data: text("d") }])
    );
    let for_all = ControlMessage::store(None, text("d"));
    assert_eq!(
        node.handle_message(text("a"), for_all, false),
        done(vec![Action::StoreBroadcast(text("d"))])
    );
    let nothing = ControlMessage::new(MessageType::StoreMessage, text("d"));
    assert_eq!(node.handle_message(text("a"), nothing, false), done(vec![]));
}

#[test]
fn newer_version_is_asked_for_once() {
    let mut node = node();
    assert_eq!(receive(&mut node, "a", MessageType::NetworkBinaryVersion, "1.0"), done(vec![]));
    assert_eq!(receive(&mut node, "a", MessageType::NetworkBinaryVersion, "0.9"), done(vec![]));
    assert_eq!(
        receive(&mut node, "a", MessageType::NetworkBinaryVersion, "1.1"),
        done(vec![tell(MessageType::RequestUpgrade, "", Some("a"))])
    );
    assert_eq!(receive(&mut node, "b", MessageType::NetworkBinaryVersion, "1.2"), done(vec![]));
    assert_eq!(receive(&mut node, "b", MessageType::RequestUpgrade, ""), done(vec![]));
    let mut bare = Management::new(text("me"), None, text("8000"));
    assert_eq!(
        receive(&mut bare, "a", MessageType::NetworkBinaryVersion, ""),
        done(vec![tell(MessageType::RequestUpgrade, "", Some("a"))])
    );
}

#[test]
fn program_is_offered_at_every_address() {
    let mut node = node();
    for addr in ["1.2.3.4", "::1", "1.2.3.4"] {
        node.handle_network_event(NetworkEvent::NewListenAddress { addr: text(addr) });
    }
    assert_eq!(
        receive(&mut node, "a", MessageType::RequestUpgrade, ""),
        done(vec![
            Action::ServeBinaryOnce,
            tell(MessageType::Upgrade, "1.2.3.4:8000", Some("a")),
            tell(MessageType::Upgrade, "::1:8000", Some("a")),
        ])
    );
}

#[test]
fn upgrades() {
    let mut node = node();
    assert_eq!(
        node.handle_user_command(UserCommand::UpgradeSelf(text("addr"))),
        done(vec![Action::UpgradeBinary(text("addr"))])
    );
    assert_eq!(
        receive(&mut node, "a", MessageType::Upgrade, "addr"),
        done(vec![Action::UpgradeBinary(text("addr"))])
    );
    assert_eq!(
        node.handle_user_command(UserCommand::Upgrade(text(""), text("addr"))),
        done(vec![tell(MessageType::Upgrade, "addr", None)])
    );
    assert_eq!(
        node.handle_user_command(UserCommand::Upgrade(text("a"), text("addr"))),
        done(vec![tell(MessageType::Upgrade, "addr", Some("a"))])
    );
    assert_eq!(
        node.handle_user_command(UserCommand::Serve(text("file"))),
        done(vec![Action::Serve(text("file"))])
    );
    assert_eq!(
        node.handle_user_command(UserCommand::ServeStop),
        done(vec![Action::StopServing])
    );
}

#[test]
fn identity_is_told() {
    let mut node = node();
    assert_eq!(
        node.handle_user_command(UserCommand::GetPeerId),
        ask(vec![], Question::PeerId)
    );
    assert_eq!(
        node.tell_peer_id(text("id")),
        done(vec![Action::Answer(Reply::Text(text("id")))])
    );
}

#[test]
fn bytes_that_cannot_be_handled() {
    let mut node = node();
    assert_eq!(
        node.network_receive(text("a"), &[0x80], false),
        Err(ReceiveError::Undecodable)
    );
    assert_eq!(
        node.network_receive(text("a"), &[0x08, 13], false),
        Err(ReceiveError::UnknownType)
    );
    assert_eq!(
        node.network_receive(text("a"), &[0x08, 12], false),
        Err(ReceiveError::MissingState)
    );
    node.handle_user_command(UserCommand::Authorize(text("b")));
    assert_eq!(node.network_receive(text("a"), &[0x08, 12], false), Ok(done(vec![])));
    assert_eq!(
        node.network_receive(text("a"), &[0x08, 13], false),
        Err(ReceiveError::UnknownType)
    );
}

#[test]
fn every_input_has_its_turn() {
    let mut node = node();
    assert_eq!(
        node.run(Input::Event(NetworkEvent::PeerDiscovered { peer: text("a") })),
        Ok(done(vec![]))
    );
    assert_eq!(
        node.run(Input::Command(UserCommand::GetDiscovered)),
        Ok(done(vec![Action::Answer(Reply::Peers(list(&["a"])))]))
    );
    let data = ControlMessage::new(MessageType::DisplayMessage, text("x")).encode_to_vec();
    assert_eq!(
        node.run(Input::Received { sender: text("a"), data, broadcasted: true }),
        Ok(done(vec![Action::StoreBroadcast(text("x")), Action::Display(text("x"))]))
    );
    assert_eq!(
        node.run(Input::Received { sender: text("a"), data: vec![0x00], broadcasted: true }),
        Err(ReceiveError::Undecodable)
    );
    let farewell = Turn {
        actions: vec![tell(MessageType::PeerDisconnected, "me", None), Action::Pause(500)],
        next: Next::Stop,
    };
    assert_eq!(node.run(Input::CommandsClosed), Ok(farewell.clone()));
    assert_eq!(node.shutdown(), farewell);
}

#[test]
fn what_a_message_holds_is_sent() {
    let msg = ControlMessage {
        message_type: MessageType::State.number(),
        state: Some(NetworkState {
            whitelisted: vec![],
            connected: vec![],
            whitelisted_sender: vec![],
            aliases: vec![Alias { peer: text("k"), alias: text("v") }],
        }),
        message: Some(StoreMessage { receiver: None, data: text("d") }),
        payload: text("p"),
    };
    match Management::send(&msg, Some(text("t"))) {
        Action::Transmit { target, data } => {
            assert_eq!(target, Some(text("t")));
            assert_eq!(ControlMessage::decode(&data).unwrap(), msg);
        }
        other => panic!("{:?}", other),
    }
}

#[test]
fn repeated_connection_changes_nothing() {
    let mut node = node();
    node.greet(text("a"), &vec![]);
    node.handle_network_event(NetworkEvent::ConnectionRejected { peer: text("b") });
    let event = NetworkEvent::ConnectionEstablished { peer: text("b") };
    let first = node.handle_network_event(event.clone());
    let connected = peers(&mut node, UserCommand::GetConnected);
    assert_eq!(node.handle_network_event(event), first);
    assert_eq!(peers(&mut node, UserCommand::GetConnected), connected);
    assert!(peers(&mut node, UserCommand::GetRejected).is_empty());
}

#[test]
fn of_two_versions_only_the_older_upgrades() {
    for (first, second) in [("1.0", "1.1"), ("1.1", "1.0"), ("1.0", "1.0")] {
        let mut a = Management::new(text("a"), Some(text(first)), text("8000"));
        let mut b = Management::new(text("b"), Some(text(second)), text("8000"));
        let asked = receive(&mut a, "b", MessageType::NetworkBinaryVersion, second);
        let answered = receive(&mut b, "a", MessageType::NetworkBinaryVersion, first);
        assert_eq!(asked.actions.len(), if first < second { 1 } else { 0 });
        assert_eq!(answered.actions.len(), if second < first { 1 } else { 0 });
    }
}

#[test]
fn peers_understand_what_a_node_sends() {
    let mut sender = node();
    sender.handle_network_event(NetworkEvent::NewListenAddress { addr: text("1.2.3.4") });
    let mut turns = vec![
        sender.greet(text("a"), &vec![]),
        sender.close(text("me"), &list(&["me"])),
        sender.depart(text("a"), true, Some((text("t"), vec![(text("p"), text("d"))]))),
        sender.arrive(Some((text("t"), vec![(None, text("d"))]))),
        sender.whitelist_peer(text("w")),
        sender.keep(text("a"), text("m"), &list(&["b"])),
        sender.describe_network(text("a"), list(&["b"]), list(&["w"])),
        sender.deliver(text("a"), Some(text("m"))),
        sender.fetch_missed(&list(&["b"])),
        sender.shutdown(),
    ];
    for command in [
        UserCommand::SendMsg { peer: None, message: text("m") },
        UserCommand::SendMsg { peer: Some(text("a")), message: text("m") },
        UserCommand::Authorize(text("a")),
        UserCommand::Alias(text("nick")),
        UserCommand::Upgrade(text("a"), text("addr")),
    ] {
        turns.push(sender.handle_user_command(command));
    }
    turns.push(receive(&mut sender, "a", MessageType::RequestUpgrade, ""));
    turns.push(receive(&mut sender, "a", MessageType::NetworkBinaryVersion, "2.0"));
    turns.push(receive(&mut sender, "a", MessageType::PeerDisconnected, "me"));
    let mut sent = 0;
    for turn in turns {
        for action in turn.actions {
            if let Action::Transmit { data, .. } = action {
                let mut receiver = Management::new(text("you"), None, text("8000"));
                assert!(receiver.network_receive(text("me"), &data, false).is_ok());
                sent += 1;
            }
        }
    }
    assert_eq!(sent, 21);
}

#[test]
fn one_upgrade_request_over_a_whole_life() {
    let mut node = node();
    node.handle_network_event(NetworkEvent::NewListenAddress { addr: text("1.2.3.4") });
    let mut turns = vec![receive(&mut node, "a", MessageType::RequestUpgrade, "")];
    assert_eq!(turns[0].actions[0], Action::ServeBinaryOnce);
    for round in ["1.0", "1.1", "1.2", "1.1"] {
        turns.push(receive(&mut node, "a", MessageType::NetworkBinaryVersion, round));
        turns.push(node.greet(text("b"), &vec![]));
        turns.push(node.handle_user_command(UserCommand::Alias(text(round))));
        turns.push(receive(&mut node, "b", MessageType::NetworkSolicitation, ""));
    }
    turns.push(receive(&mut node, "a", MessageType::RequestUpgrade, ""));
    let actions: Vec<Action> = turns.into_iter().flat_map(|turn| turn.actions).collect();
    let request = tell(MessageType::RequestUpgrade, "", Some("a"));
    let first = actions.iter().position(|a| *a == request).unwrap();
    assert_eq!(actions.iter().filter(|a| **a == request).count(), 1);
    assert!(!actions[first..].contains(&Action::ServeBinaryOnce));
}
