//! The messages of the messenger protocol. Times are seconds since the Unix
//! epoch (UTC).

use vstd::prelude::*;

verus! {

/// A message as carried by the protocol.
#[derive(Debug, Clone)]
pub struct Message {
    pub id: String,
    pub from: String,
    pub to: String,
    pub content: String,
    pub timestamp: i64,
    pub signature: Vec<u8>,
    pub is_encrypted: bool,
    pub nonce: Option<String>,
    pub message_number: Option<u64>,
    pub reply_to: Option<String>,
    pub edited_at: Option<i64>,
    pub reactions: Vec<Reaction>,
    pub forwarded_from: Option<String>,
}

/// A reaction to a message.
#[derive(Debug, Clone)]
pub struct Reaction {
    pub user_id: String,
    pub emoji: String,
    pub timestamp: i64,
}

/// Something that happened in a conversation.
#[derive(Debug, Clone)]
pub enum MessengerEvent {
    MessageReceived(Message),
    MessageSent(Message),
    UserOnline(String),
    UserOffline(String),
    TypingIndicator(String),
    ReactionAdded { message_id: String, reaction: Reaction },
    MessageEdited(Message),
    SessionEstablished(String),
}

} // verus!
