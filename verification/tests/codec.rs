use prost::encoding::{message, DecodeContext, WireType};
use prost::Message;

use management::protocol::{Alias, ControlMessage, MessageType, NetworkState, StoreMessage};

fn text(s: &str) -> String {
    s.to_string()
}

fn full_state() -> NetworkState {
    NetworkState {
        whitelisted: vec![text("w")],
        connected: vec![text("c")],
        whitelisted_sender: vec![text("s")],
        aliases: vec![Alias { peer: text("k"), alias: text("v") }],
    }
}

#[test]
fn plain_message_bytes() {
    let msg = ControlMessage::new(MessageType::PeerConnected, text("a"));
    assert_eq!(msg.encode_to_vec(), vec![0x08, 8, 0x22, 1, b'a']);
}

#[test]
fn default_values_are_left_out() {
    let msg = ControlMessage::new(MessageType::DisplayMessage, text("hi"));
    assert_eq!(msg.encode_to_vec(), vec![0x22, 2, b'h', b'i']);
    let empty = ControlMessage::new(MessageType::DisplayMessage, text(""));
    assert_eq!(empty.encode_to_vec(), Vec::<u8>::new());
}

#[test]
fn store_message_bytes() {
    let msg = ControlMessage::store(Some(text("p")), text("d"));
    assert_eq!(
        msg.encode_to_vec(),
        vec![0x08, 11, 0x1a, 6, 0x0a, 1, b'p', 0x12, 1, b'd']
    );
    let to_all = ControlMessage::store(None, text("d"));
    assert_eq!(to_all.encode_to_vec(), vec![0x08, 11, 0x1a, 3, 0x12, 1, b'd']);
    let to_nobody = ControlMessage::store(Some(text("")), text(""));
    assert_eq!(to_nobody.encode_to_vec(), vec![0x08, 11, 0x1a, 2, 0x0a, 0]);
}

#[test]
fn state_message_bytes() {
    let msg = ControlMessage::network_state(full_state());
    assert_eq!(
        msg.encode_to_vec(),
        vec![
            0x08, 12, 0x12, 17, 0x0a, 1, b'w', 0x12, 1, b'c', 0x1a, 1, b's', 0x22, 6, 0x0a, 1,
            b'k', 0x12, 1, b'v'
        ]
    );
}

#[test]
fn long_text_has_a_long_length() {
    let msg = ControlMessage::new(MessageType::DisplayMessage, "x".repeat(300));
    let bytes = msg.encode_to_vec();
    assert_eq!(bytes.len(), 303);
    assert_eq!(&bytes[..3], &[0x22, 0xac, 0x02]);
    assert_eq!(ControlMessage::decode(&bytes).unwrap(), msg);
}

#[test]
fn negative_type_is_sign_extended() {
    let mut msg = ControlMessage::new(MessageType::DisplayMessage, text(""));
    msg.message_type = -1;
    let bytes = msg.encode_to_vec();
    assert_eq!(bytes, vec![0x08, 255, 255, 255, 255, 255, 255, 255, 255, 255, 1]);
    assert_eq!(ControlMessage::decode(&bytes).unwrap(), msg);
}

#[test]
fn decoding_gives_back_what_was_encoded() {
    let messages = vec![
        ControlMessage::new(MessageType::PublishAlias, text("n\u{e4}m\u{20ac}\u{1f600}")),
        ControlMessage::new(MessageType::NetworkSolicitation, text("")),
        ControlMessage::store(None, text("data")),
        ControlMessage::store(Some(text("")), text("")),
        ControlMessage::network_state(full_state()),
        ControlMessage {
            message_type: 77,
            state: Some(NetworkState {
                whitelisted: vec![text(""), text("a"), text("")],
                connected: vec![],
                whitelisted_sender: vec![text("b"), text("b")],
                aliases: vec![
                    Alias { peer: text(""), alias: text("x") },
                    Alias { peer: text("y"), alias: text("") },
                ],
            }),
            message: Some(StoreMessage { receiver: Some(text("r")), data: text("d") }),
            payload: text("p"),
        },
    ];
    for msg in messages {
        assert_eq!(ControlMessage::decode(&msg.encode_to_vec()).unwrap(), msg);
    }
}

#[test]
fn no_bytes_are_the_empty_message() {
    let msg = ControlMessage::decode(&[]).unwrap();
    assert_eq!(msg, ControlMessage::new(MessageType::DisplayMessage, text("")));
}

#[test]
fn unknown_fields_are_passed_over() {
    let mut bytes = vec![0x48, 0x85, 0x01];
    bytes.extend_from_slice(&[0x49, 1, 2, 3, 4, 5, 6, 7, 8]);
    bytes.extend_from_slice(&[0x4a, 2, 0xff, 0xff]);
    bytes.extend_from_slice(&[0x4b, 0x08, 7, 0x4c]);
    bytes.extend_from_slice(&[0x4d, 1, 2, 3, 4]);
    bytes.extend_from_slice(&[0x08, 6]);
    let msg = ControlMessage::decode(&bytes).unwrap();
    assert_eq!(msg, ControlMessage::new(MessageType::RequestUpgrade, text("")));
}

#[test]
fn last_value_counts_and_nested_messages_grow() {
    let bytes = [
        0x22, 1, b'a', 0x22, 1, b'b', 0x12, 3, 0x0a, 1, b'w', 0x12, 3, 0x0a, 1, b'x', 0x1a, 3,
        0x0a, 1, b'r', 0x1a, 3, 0x12, 1, b'd',
    ];
    let msg = ControlMessage::decode(&bytes).unwrap();
    assert_eq!(msg.payload, "b");
    assert_eq!(msg.state.unwrap().whitelisted, vec![text("w"), text("x")]);
    assert_eq!(
        msg.message.unwrap(),
        StoreMessage { receiver: Some(text("r")), data: text("d") }
    );
}

#[test]
fn malformed_bytes_are_refused() {
    let malformed: Vec<Vec<u8>> = vec![
        vec![0x80],
        vec![0x00],
        vec![0x0e],
        vec![0x0a, 0],
        vec![0x20, 1],
        vec![0x22, 2, b'a'],
        vec![0x22, 1, 0xff],
        vec![0x12, 1, 0x0a],
        vec![0x12, 5, 0x0a, 1, b'w'],
        vec![0x12, 3, 0x22, 1, 0x80],
        vec![0x4c],
        vec![0x49, 1, 2, 3],
        vec![0x4d, 1, 2, 3],
        vec![0x4b, 0x08, 7],
        vec![0x08, 255, 255, 255, 255, 255, 255, 255, 255, 255, 2],
        vec![0x08, 255, 255, 255, 255, 255, 255, 255, 255, 255, 129, 0],
        vec![0x80, 0x80, 0x80, 0x80, 0x10],
    ];
    for bytes in malformed {
        assert!(ControlMessage::decode(&bytes).is_err(), "{:?}", bytes);
    }
}

#[test]
fn type_is_cut_to_its_lowest_bits() {
    let msg = ControlMessage::decode(&[0x08, 0x83, 0x80, 0x80, 0x80, 0x10]).unwrap();
    assert_eq!(msg.message_type, 3);
}

#[test]
fn every_type_has_its_number() {
    let types = [
        MessageType::DisplayMessage,
        MessageType::AddWhitelistPeer,
        MessageType::AddWhitelistSender,
        MessageType::PublishAlias,
        MessageType::NetworkSolicitation,
        MessageType::Upgrade,
        MessageType::RequestUpgrade,
        MessageType::NetworkBinaryVersion,
        MessageType::PeerConnected,
        MessageType::PeerDisconnected,
        MessageType::RequestMessage,
        MessageType::StoreMessage,
        MessageType::State,
    ];
    for (i, message_type) in types.iter().enumerate() {
        assert_eq!(message_type.number(), i as i32);
        assert_eq!(MessageType::from_i32(i as i32), Some(*message_type));
    }
    assert_eq!(MessageType::from_i32(13), None);
    assert_eq!(MessageType::from_i32(-1), None);
}

/// An unknown field that opens `depth` groups, one in the other.
fn nested_groups(depth: usize) -> Vec<u8> {
    let mut bytes = vec![0x4b; depth];
    bytes.extend(vec![0x4c; depth]);
    bytes
}

/// `inner` as the value of a length-delimited field.
fn field(key: u8, inner: &[u8]) -> Vec<u8> {
    let mut bytes = vec![key];
    prost::encode_length_delimiter(inner.len(), &mut bytes).unwrap();
    bytes.extend_from_slice(inner);
    bytes
}

#[test]
fn groups_may_nest_as_deep_as_the_place_allows() {
    for (depth, fits) in [(1, true), (99, true), (100, true), (101, false)] {
        let bytes = nested_groups(depth);
        assert_eq!(ControlMessage::decode(&bytes).is_ok(), fits);
        assert_eq!(<() as Message>::decode(&bytes[..]).is_ok(), fits);
    }
    for (depth, fits) in [(1, true), (98, true), (99, true), (100, false)] {
        for key in [0x12, 0x1a] {
            let bytes = field(key, &nested_groups(depth));
            assert_eq!(ControlMessage::decode(&bytes).is_ok(), fits);
            let (mut value, mut rest) = ((), &bytes[1..]);
            let context = DecodeContext::default();
            let merged = message::merge(WireType::LengthDelimited, &mut value, &mut rest, context);
            assert_eq!(merged.is_ok(), fits);
        }
    }
    for (depth, fits) in [(1, true), (97, true), (98, true), (99, false)] {
        let bytes = field(0x12, &field(0x22, &nested_groups(depth)));
        assert_eq!(ControlMessage::decode(&bytes).is_ok(), fits);
    }
}

#[test]
fn values_in_groups_count_as_a_level() {
    for (depth, fits) in [(1, true), (99, true), (100, false)] {
        let mut bytes = vec![0x4b; depth];
        bytes.extend_from_slice(&[0x08, 1, 0x11, 0, 0, 0, 0, 0, 0, 0, 0, 0x1a, 1, 0xff]);
        bytes.extend(vec![0x4c; depth]);
        bytes.extend_from_slice(&[0x22, 1, b'x']);
        let decoded = ControlMessage::decode(&bytes);
        assert_eq!(decoded.is_ok(), fits);
        assert_eq!(<() as Message>::decode(&bytes[..]).is_ok(), fits);
        if fits {
            assert_eq!(decoded.unwrap().payload, "x");
        }
    }
}

#[test]
fn group_ends_must_match() {
    assert!(ControlMessage::decode(&[0x4b, 0x53, 0x54, 0x4c]).is_ok());
    assert!(ControlMessage::decode(&[0x4b, 0x53, 0x4c, 0x54]).is_err());
    assert!(ControlMessage::decode(&[0x4b, 0x54]).is_err());
    assert!(ControlMessage::decode(&[0x4b, 0x4b, 0x4c]).is_err());
    assert!(ControlMessage::decode(&[0x4b, 0x0e, 0x4c]).is_err());
}
