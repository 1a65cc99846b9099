//! The management layer of a peer-to-peer device network: the node that keeps
//! track of the peers around it, exchanges control messages with them, and
//! decides what is to be done about every input.
//!
//! `management` holds the node itself, `model` the functions that its contracts
//! speak of, and `message_laws` and `event_laws` what each message, event, command
//! and answer has done. `laws` says what holds whatever comes, `history` what holds
//! over any sequence of calls, and `conversations` what comes of it when nodes talk
//! to each other. `turn` holds what reaches a node and what it answers with.
//! `protocol`, `codec` and `wire` are the messages and their encoding, with their
//! own laws in `codec_laws`, `merge_laws` and `wire_laws`.

pub mod aliases;
pub mod codec;
pub mod codec_laws;
pub mod conversations;
pub mod display;
pub mod event_laws;
pub mod history;
pub mod laws;
pub mod management;
pub mod merge_laws;
pub mod message_laws;
pub mod model;
pub mod options;
pub mod protocol;
pub mod text;
pub mod text_laws;
pub mod turn;
pub mod wire;
pub mod wire_laws;
