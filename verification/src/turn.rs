//! What reaches a node, and what it answers with. The node itself neither sends
//! nor waits: it is told what happened, and says what is to be done and what it
//! has to know before it can go on.

use vstd::prelude::*;
use crate::aliases::put_all;
use crate::protocol::{alias_views, Alias};
use crate::text::{optional_text, Text};

verus! {

/// What happens on the network layer.
#[derive(Clone, Debug, PartialEq, Eq)]
pub enum NetworkEvent {
    PeerDiscovered { peer: String },
    ConnectionEstablished { peer: String },
    ConnectionClosed { peer: String },
    ConnectionRejected { peer: String },
    PeerExpired { peer: String },
    NewListenAddress { addr: String },
}

/// What the user of a node asks it to do or to tell.
#[derive(Clone, Debug, PartialEq, Eq)]
pub enum UserCommand {
    SendMsg { peer: Option<String>, message: String },
    Whitelist(String),
    Authorize(String),
    Alias(String),
    UpgradeSelf(String),
    Upgrade(String, String),
    Serve(String),
    ServeStop,
    GetPeerId,
    GetAlias,
    GetAliases,
    GetDiscovered,
    GetConnected,
    GetRejected,
}

/// What a node waits for: a message from another node, a command, the end of
/// all commands, or an event of the network layer.
#[derive(Clone, Debug, PartialEq, Eq)]
pub enum Input {
    Received { sender: String, data: Vec<u8>, broadcasted: bool },
    Command(UserCommand),
    CommandsClosed,
    Event(NetworkEvent),
}

/// Why bytes from the network are not handled.
#[derive(Clone, Copy, Debug, PartialEq, Eq, Structural)]
pub enum ReceiveError {
    /// They are no encoded message.
    Undecodable,
    /// The type of the message is not known.
    UnknownType,
    /// A message about the state of the network carries none.
    MissingState,
}

/// What a node tells its user.
#[derive(Clone, Debug, PartialEq, Eq)]
pub enum Reply {
    Text(String),
    /// The entries that make up the alias table, in some order.
    Aliases(Vec<Alias>),
    Peers(Vec<String>),
}

/// What a `Reply` holds.
pub enum ReplyView {
    Text(Text),
    Aliases(Map<Text, Text>),
    Peers(Seq<Text>),
}

impl View for Reply {
    type V = ReplyView;

    open spec fn view(&self) -> ReplyView {
        match self {
            Reply::Text(text) => ReplyView::Text(text@),
            Reply::Aliases(list) => ReplyView::Aliases(
                put_all(Map::empty(), alias_views(list@)),
            ),
            Reply::Peers(peers) => ReplyView::Peers(crate::text::texts(peers@)),
        }
    }
}

/// One thing that is to be done for a node.
#[derive(Clone, Debug, PartialEq, Eq)]
pub enum Action {
    /// Let so many milliseconds pass.
    Pause(u64),
    /// Hand the bytes to one peer, or publish them to the whole network.
    Transmit { target: Option<String>, data: Vec<u8> },
    /// Let the network layer accept this peer.
    AddWhitelisted(String),
    /// Keep content for one receiver in the distributed table.
    Store { receiver: String, data: String },
    /// Keep content for all in the distributed table.
    StoreBroadcast(String),
    /// Let the distributed table know of this peer.
    AddPeer(String),
    /// Replace the running program by the one that is served at this address.
    UpgradeBinary(String),
    /// Serve the running program to the next node that asks for it.
    ServeBinaryOnce,
    /// Serve the file at this path.
    Serve(String),
    /// Serve no file any more.
    StopServing,
    /// Show this text on the display.
    Display(String),
    /// Answer the command.
    Answer(Reply),
}

/// What an `Action` holds.
pub enum ActionView {
    Pause(u64),
    Transmit { target: Option<Text>, data: Seq<u8> },
    AddWhitelisted(Text),
    Store { receiver: Text, data: Text },
    StoreBroadcast(Text),
    AddPeer(Text),
    UpgradeBinary(Text),
    ServeBinaryOnce,
    Serve(Text),
    StopServing,
    Display(Text),
    Answer(ReplyView),
}

impl View for Action {
    type V = ActionView;

    open spec fn view(&self) -> ActionView {
        match self {
            Action::Pause(millis) => ActionView::Pause(*millis),
            Action::Transmit { target, data } => ActionView::Transmit {
                target: optional_text(*target),
                data: data@,
            },
            Action::AddWhitelisted(peer) => ActionView::AddWhitelisted(peer@),
            Action::Store { receiver, data } => ActionView::Store {
                receiver: receiver@,
                data: data@,
            },
            Action::StoreBroadcast(data) => ActionView::StoreBroadcast(data@),
            Action::AddPeer(peer) => ActionView::AddPeer(peer@),
            Action::UpgradeBinary(addr) => ActionView::UpgradeBinary(addr@),
            Action::ServeBinaryOnce => ActionView::ServeBinaryOnce,
            Action::Serve(path) => ActionView::Serve(path@),
            Action::StopServing => ActionView::StopServing,
            Action::Display(text) => ActionView::Display(text@),
            Action::Answer(reply) => ActionView::Answer(reply@),
        }
    }
}

/// What a list of actions holds.
pub open spec fn action_views(list: Seq<Action>) -> Seq<ActionView> {
    list.map_values(|a: Action| a@)
}

/// What a node has to know before it can go on.
#[derive(Clone, Debug, PartialEq, Eq)]
pub enum Question {
    /// The whitelist of the network layer; goes on with `Management::greet`.
    Greeting { peer: String },
    /// The peers that the distributed table holds to be online; goes on with
    /// `Management::close`.
    Closing { peer: String },
    /// The peers of the distributed table that are closest to `peer`; goes on
    /// with `Management::keep`.
    Keepers { peer: String, message: String },
    /// The whitelist of the network layer; goes on with `Management::whitelist_new`.
    Admission { peer: String },
    /// The identity that the network layer has; goes on with
    /// `Management::tell_peer_id`.
    PeerId,
    /// The online peers and then the whitelist; goes on with
    /// `Management::describe_network`.
    NetworkState { sender: String },
    /// What the distributed table hands on when `peer` comes online; goes on
    /// with `Management::arrive`.
    Arrival { peer: String },
    /// What the distributed table hands on when `peer` goes offline; goes on
    /// with `Management::depart`.
    Departure { peer: String, closing: bool },
    /// The content that is kept for `receiver`; goes on with
    /// `Management::deliver`.
    Content { receiver: String },
    /// The peers of the distributed table that are closest to `peer`; goes on
    /// with `Management::fetch_missed`.
    Nearest { peer: String },
}

/// What a `Question` holds.
pub enum QuestionView {
    Greeting { peer: Text },
    Closing { peer: Text },
    Keepers { peer: Text, message: Text },
    Admission { peer: Text },
    PeerId,
    NetworkState { sender: Text },
    Arrival { peer: Text },
    Departure { peer: Text, closing: bool },
    Content { receiver: Text },
    Nearest { peer: Text },
}

impl View for Question {
    type V = QuestionView;

    open spec fn view(&self) -> QuestionView {
        match self {
            Question::Greeting { peer } => QuestionView::Greeting { peer: peer@ },
            Question::Closing { peer } => QuestionView::Closing { peer: peer@ },
            Question::Keepers { peer, message } => QuestionView::Keepers {
                peer: peer@,
                message: message@,
            },
            Question::Admission { peer } => QuestionView::Admission { peer: peer@ },
            Question::PeerId => QuestionView::PeerId,
            Question::NetworkState { sender } => QuestionView::NetworkState { sender: sender@ },
            Question::Arrival { peer } => QuestionView::Arrival { peer: peer@ },
            Question::Departure { peer, closing } => QuestionView::Departure {
                peer: peer@,
                closing: *closing,
            },
            Question::Content { receiver } => QuestionView::Content { receiver: receiver@ },
            Question::Nearest { peer } => QuestionView::Nearest { peer: peer@ },
        }
    }
}

/// What follows when the actions of a turn are done.
#[derive(Clone, Debug, PartialEq, Eq)]
pub enum Next {
    /// The node waits for the next input.
    Wait,
    /// The node goes on with the answer to a question.
    Ask(Question),
    /// The node is at its end.
    Stop,
}

/// What a `Next` holds.
pub enum NextView {
    Wait,
    Ask(QuestionView),
    Stop,
}

impl View for Next {
    type V = NextView;

    open spec fn view(&self) -> NextView {
        match self {
            Next::Wait => NextView::Wait,
            Next::Ask(question) => NextView::Ask(question@),
            Next::Stop => NextView::Stop,
        }
    }
}

/// What a node answers with: the actions, in order, and what follows them.
#[derive(Clone, Debug, PartialEq, Eq)]
pub struct Turn {
    pub actions: Vec<Action>,
    pub next: Next,
}

/// What a `Turn` holds.
#[verifier::ext_equal]
pub struct TurnView {
    pub actions: Seq<ActionView>,
    pub next: NextView,
}

impl View for Turn {
    type V = TurnView;

    open spec fn view(&self) -> TurnView {
        TurnView { actions: action_views(self.actions@), next: self.next@ }
    }
}

/// What a turn holds, or why there is none.
pub open spec fn result_view(result: Result<Turn, ReceiveError>) -> Result<TurnView, ReceiveError> {
    match result {
        Ok(turn) => Ok(turn@),
        Err(error) => Err(error),
    }
}

/// The actions, and then the node waits.
pub open spec fn done(actions: Seq<ActionView>) -> TurnView {
    TurnView { actions, next: NextView::Wait }
}

/// The actions, and then a question.
pub open spec fn ask(actions: Seq<ActionView>, question: QuestionView) -> TurnView {
    TurnView { actions, next: NextView::Ask(question) }
}

/// Puts `action` at the end of `list`.
pub fn add_action(list: &mut Vec<Action>, action: Action)
    ensures
        action_views(final(list)@) == action_views(old(list)@).push(action@),
{
    list.push(action);
    assert(action_views(list@) =~= action_views(old(list)@).push(action@));
}

} // verus!
