//! Messages stored in a room's history and the notifications emitted for
//! external listeners.

use vstd::prelude::*;

use crate::identity::Identity;

verus! {

/// What a stored message looks like in specifications.
pub ghost struct ChatMessageView {
    pub sender: Seq<u8>,
    pub content: Seq<char>,
    pub timestamp: int,
}

/// One entry of a room's history: immutable once appended, removed only by
/// bulk FIFO eviction.
#[derive(Debug)]
pub struct ChatMessage {
    /// Identity of the mutation's originator.
    pub sender: Identity,
    /// Text payload.
    pub content: String,
    /// Logical clock value captured at append time.
    pub timestamp: i64,
}

impl View for ChatMessage {
    type V = ChatMessageView;

    open spec fn view(&self) -> ChatMessageView {
        ChatMessageView {
            sender: self.sender@,
            content: self.content@,
            timestamp: self.timestamp as int,
        }
    }
}

/// What an emitted notification looks like in specifications.
pub ghost struct MessageSentView {
    pub sender: Seq<u8>,
    pub content: Seq<char>,
    pub timestamp: int,
}

/// The fire-and-forget notification handed to external listeners after a
/// successful send. Not persisted; it carries the very timestamp that was
/// stored with the message.
#[derive(Debug)]
pub struct MessageSent {
    pub sender: Identity,
    pub content: String,
    pub timestamp: i64,
}

impl View for MessageSent {
    type V = MessageSentView;

    open spec fn view(&self) -> MessageSentView {
        MessageSentView {
            sender: self.sender@,
            content: self.content@,
            timestamp: self.timestamp as int,
        }
    }
}

} // verus!
