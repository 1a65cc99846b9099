//! The messages that the nodes of the network exchange.

use vstd::prelude::*;
use crate::text::{optional_text, texts, Text};

verus! {

/// What a control message is about.
#[derive(Clone, Copy, Debug, PartialEq, Eq, Structural)]
pub enum MessageType {
    DisplayMessage,
    AddWhitelistPeer,
    AddWhitelistSender,
    PublishAlias,
    NetworkSolicitation,
    Upgrade,
    RequestUpgrade,
    NetworkBinaryVersion,
    PeerConnected,
    PeerDisconnected,
    RequestMessage,
    StoreMessage,
    State,
}

/// The number that stands for a message type in a message.
pub open spec fn type_number(message_type: MessageType) -> i32 {
    match message_type {
        MessageType::DisplayMessage => 0,
        MessageType::AddWhitelistPeer => 1,
        MessageType::AddWhitelistSender => 2,
        MessageType::PublishAlias => 3,
        MessageType::NetworkSolicitation => 4,
        MessageType::Upgrade => 5,
        MessageType::RequestUpgrade => 6,
        MessageType::NetworkBinaryVersion => 7,
        MessageType::PeerConnected => 8,
        MessageType::PeerDisconnected => 9,
        MessageType::RequestMessage => 10,
        MessageType::StoreMessage => 11,
        MessageType::State => 12,
    }
}

/// The message type that `number` stands for, if any does.
pub open spec fn numbered_type(number: i32) -> Option<MessageType> {
    if number == 0 {
        Some(MessageType::DisplayMessage)
    } else if number == 1 {
        Some(MessageType::AddWhitelistPeer)
    } else if number == 2 {
        Some(MessageType::AddWhitelistSender)
    } else if number == 3 {
        Some(MessageType::PublishAlias)
    } else if number == 4 {
        Some(MessageType::NetworkSolicitation)
    } else if number == 5 {
        Some(MessageType::Upgrade)
    } else if number == 6 {
        Some(MessageType::RequestUpgrade)
    } else if number == 7 {
        Some(MessageType::NetworkBinaryVersion)
    } else if number == 8 {
        Some(MessageType::PeerConnected)
    } else if number == 9 {
        Some(MessageType::PeerDisconnected)
    } else if number == 10 {
        Some(MessageType::RequestMessage)
    } else if number == 11 {
        Some(MessageType::StoreMessage)
    } else if number == 12 {
        Some(MessageType::State)
    } else {
        None
    }
}

impl MessageType {
    /// The number that stands for this type in a message.
    pub fn number(self) -> (number: i32)
        ensures
            number == type_number(self),
    {
        match self {
            MessageType::DisplayMessage => 0,
            MessageType::AddWhitelistPeer => 1,
            MessageType::AddWhitelistSender => 2,
            MessageType::PublishAlias => 3,
            MessageType::NetworkSolicitation => 4,
            MessageType::Upgrade => 5,
            MessageType::RequestUpgrade => 6,
            MessageType::NetworkBinaryVersion => 7,
            MessageType::PeerConnected => 8,
            MessageType::PeerDisconnected => 9,
            MessageType::RequestMessage => 10,
            MessageType::StoreMessage => 11,
            MessageType::State => 12,
        }
    }

    /// The type that `number` stands for, if any does.
    pub fn from_i32(number: i32) -> (message_type: Option<MessageType>)
        ensures
            message_type == numbered_type(number),
    {
        match number {
            0 => Some(MessageType::DisplayMessage),
            1 => Some(MessageType::AddWhitelistPeer),
            2 => Some(MessageType::AddWhitelistSender),
            3 => Some(MessageType::PublishAlias),
            4 => Some(MessageType::NetworkSolicitation),
            5 => Some(MessageType::Upgrade),
            6 => Some(MessageType::RequestUpgrade),
            7 => Some(MessageType::NetworkBinaryVersion),
            8 => Some(MessageType::PeerConnected),
            9 => Some(MessageType::PeerDisconnected),
            10 => Some(MessageType::RequestMessage),
            11 => Some(MessageType::StoreMessage),
            12 => Some(MessageType::State),
            _ => None,
        }
    }
}

/// One entry of a node's alias table.
#[derive(Clone, Debug, PartialEq, Eq)]
pub struct Alias {
    pub peer: String,
    pub alias: String,
}

/// What an `Alias` holds.
#[verifier::ext_equal]
pub struct AliasView {
    pub peer: Text,
    pub alias: Text,
}

impl View for Alias {
    type V = AliasView;

    open spec fn view(&self) -> AliasView {
        AliasView { peer: self.peer@, alias: self.alias@ }
    }
}

/// What a list of alias entries holds.
pub open spec fn alias_views(list: Seq<Alias>) -> Seq<AliasView> {
    list.map_values(|a: Alias| a@)
}

/// Content that a node is asked to keep, for one receiver or for all.
#[derive(Clone, Debug, PartialEq, Eq)]
pub struct StoreMessage {
    pub receiver: Option<String>,
    pub data: String,
}

/// What a `StoreMessage` holds.
#[verifier::ext_equal]
pub struct StoreMessageView {
    pub receiver: Option<Text>,
    pub data: Text,
}

impl View for StoreMessage {
    type V = StoreMessageView;

    open spec fn view(&self) -> StoreMessageView {
        StoreMessageView { receiver: optional_text(self.receiver), data: self.data@ }
    }
}

/// What a node tells of the network to a node that joins it.
#[derive(Clone, Debug, PartialEq, Eq)]
pub struct NetworkState {
    pub whitelisted: Vec<String>,
    pub connected: Vec<String>,
    pub whitelisted_sender: Vec<String>,
    pub aliases: Vec<Alias>,
}

/// What a `NetworkState` holds.
#[verifier::ext_equal]
pub struct NetworkStateView {
    pub whitelisted: Seq<Text>,
    pub connected: Seq<Text>,
    pub whitelisted_sender: Seq<Text>,
    pub aliases: Seq<AliasView>,
}

impl View for NetworkState {
    type V = NetworkStateView;

    open spec fn view(&self) -> NetworkStateView {
        NetworkStateView {
            whitelisted: texts(self.whitelisted@),
            connected: texts(self.connected@),
            whitelisted_sender: texts(self.whitelisted_sender@),
            aliases: alias_views(self.aliases@),
        }
    }
}

/// A message between two nodes.
#[derive(Clone, Debug, PartialEq, Eq)]
pub struct ControlMessage {
    pub message_type: i32,
    pub state: Option<NetworkState>,
    pub message: Option<StoreMessage>,
    pub payload: String,
}

/// What a `ControlMessage` holds.
#[verifier::ext_equal]
pub struct ControlMessageView {
    pub message_type: i32,
    pub state: Option<NetworkStateView>,
    pub message: Option<StoreMessageView>,
    pub payload: Text,
}

/// What an optional `NetworkState` holds.
pub open spec fn optional_state(state: Option<NetworkState>) -> Option<NetworkStateView> {
    match state {
        Some(s) => Some(s@),
        None => None,
    }
}

/// What an optional `StoreMessage` holds.
pub open spec fn optional_store(message: Option<StoreMessage>) -> Option<StoreMessageView> {
    match message {
        Some(m) => Some(m@),
        None => None,
    }
}

impl View for ControlMessage {
    type V = ControlMessageView;

    open spec fn view(&self) -> ControlMessageView {
        ControlMessageView {
            message_type: self.message_type,
            state: optional_state(self.state),
            message: optional_store(self.message),
            payload: self.payload@,
        }
    }
}

/// The message of a type that carries nothing but a payload.
pub open spec fn plain_message(message_type: MessageType, payload: Text) -> ControlMessageView {
    ControlMessageView {
        message_type: type_number(message_type),
        state: None,
        message: None,
        payload,
    }
}

/// The message that asks a node to keep content.
pub open spec fn store_message(receiver: Option<Text>, data: Text) -> ControlMessageView {
    ControlMessageView {
        message_type: type_number(MessageType::StoreMessage),
        state: None,
        message: Some(StoreMessageView { receiver, data }),
        payload: Seq::empty(),
    }
}

/// The message that tells a node the state of the network.
pub open spec fn state_message(state: NetworkStateView) -> ControlMessageView {
    ControlMessageView {
        message_type: type_number(MessageType::State),
        state: Some(state),
        message: None,
        payload: Seq::empty(),
    }
}

impl ControlMessage {
    /// A message that carries nothing but a payload.
    pub fn new(message_type: MessageType, payload: String) -> (msg: ControlMessage)
        ensures
            msg@ == plain_message(message_type, payload@),
    {
        ControlMessage { message_type: message_type.number(), state: None, message: None, payload }
    }

    /// A message that asks a node to keep content.
    pub fn store(receiver: Option<String>, data: String) -> (msg: ControlMessage)
        ensures
            msg@ == store_message(optional_text(receiver), data@),
    {
        ControlMessage {
            message_type: MessageType::StoreMessage.number(),
            state: None,
            message: Some(StoreMessage { receiver, data }),
            payload: String::new(),
        }
    }

    /// A message that tells a node the state of the network.
    pub fn network_state(state: NetworkState) -> (msg: ControlMessage)
        ensures
            msg@ == state_message(state@),
    {
        ControlMessage {
            message_type: MessageType::State.number(),
            state: Some(state),
            message: None,
            payload: String::new(),
        }
    }
}

} // verus!
