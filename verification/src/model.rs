//! The wire-level message envelope: the union of chat event kinds and the
//! payload fields they carry.

use vstd::prelude::*;

verus! {

/// The kind tag of an envelope, together with its target where one exists.
#[derive(Clone, Debug, PartialEq, Eq)]
pub enum ChatMessageType {
    /// A point-to-point message; the payload names the target identity.
    OneToOne(String),
    /// A room-scoped message; the payload names the room.
    RoomMessage(String),
    /// A message to every other live connection.
    Broadcast,
    /// A request to join the named room.
    Join(String),
    /// A local acknowledgement of a client message id.
    Ack,
}

/// The message envelope exchanged over the wire.
///
/// `from` is set by the hub on outbound room, point-to-point and broadcast
/// envelopes and absent on client-originated frames.  `message_id` is the
/// client-supplied handle that requests a local acknowledgement.
#[derive(Clone, Debug, PartialEq, Eq)]
pub struct ChatMessage {
    pub from: Option<String>,
    pub style: ChatMessageType,
    pub content: Option<String>,
    pub message_id: Option<String>,
}

impl ChatMessage {
    /// The acknowledgement envelope that echoes `message_id` back to the
    /// client that supplied it.  It carries no sender and no content.
    pub fn ack(message_id: String) -> (r: ChatMessage)
        ensures
            r == (ChatMessage {
                from: None,
                style: ChatMessageType::Ack,
                content: None,
                message_id: Some(message_id),
            }),
    {
        ChatMessage {
            from: None,
            style: ChatMessageType::Ack,
            content: None,
            message_id: Some(message_id),
        }
    }
}

} // verus!
