//! The chat room record and the ownership-handoff state machine that governs
//! when it may be mutated.
//!
//! Exactly one execution context holds mutation authority over a room at any
//! time. Sends are valid only under the base context; `delegate` hands
//! authority to the exclusive fast context and `undelegate` returns it. Every
//! operation either commits whole or fails leaving the room untouched.

use vstd::prelude::*;

use crate::errors::ChatError;
use crate::history::{history_append, BoundedHistory};
use crate::identity::Identity;
use crate::message::{ChatMessage, ChatMessageView, MessageSent, MessageSentView};
use crate::CAPACITY;

verus! {

/// Which execution location currently holds mutation authority over a record.
#[derive(Clone, Copy, Debug, PartialEq, Eq, Structural)]
pub enum OwnershipContext {
    /// The default, slow, globally consistent location.
    Base,
    /// The temporary, exclusive, fast location.
    Delegated,
}

/// The answer the external delegation service gave to an acceptance or
/// revocation request, as relayed by the caller that performed that request.
#[derive(Clone, Copy, Debug, PartialEq, Eq, Structural)]
pub enum ServiceResponse {
    Accepted,
    Rejected,
}

/// What a room looks like in specifications. The counter is unbounded here;
/// the executable record keeps it within machine range.
#[verifier::ext_equal]
pub ghost struct ChatRoomView {
    pub message_count: int,
    pub history: Seq<ChatMessageView>,
    pub context: OwnershipContext,
}

impl ChatRoomView {
    /// The invariants every room maintains: the history respects its
    /// capacity, and the counter never falls below the history's length
    /// (the counter never shrinks even though the history evicts).
    pub open spec fn wf(self) -> bool {
        &&& self.history.len() <= CAPACITY
        &&& self.message_count >= self.history.len()
    }
}

/// A freshly initialized room: counter zero, empty history, authority held
/// by the base context.
pub open spec fn fresh_room() -> ChatRoomView {
    ChatRoomView {
        message_count: 0,
        history: Seq::<ChatMessageView>::empty(),
        context: OwnershipContext::Base,
    }
}

/// The outcome of one send. Mutation requires the base context to hold
/// authority; otherwise the room is unchanged and the send fails with
/// `WrongContext`. On success the counter grows by exactly one, the message
/// is appended (evicting the oldest entry when full), and the notification
/// carries the very sender, content and timestamp that were stored.
pub open spec fn send_step(room: ChatRoomView, m: ChatMessageView) -> (ChatRoomView, Result<
    MessageSentView,
    ChatError,
>) {
    if room.context is Base {
        (
            ChatRoomView {
                message_count: room.message_count + 1,
                history: history_append(room.history, m),
                context: room.context,
            },
            Ok(MessageSentView { sender: m.sender, content: m.content, timestamp: m.timestamp }),
        )
    } else {
        (room, Err(ChatError::WrongContext))
    }
}

/// The outcome of one delegation attempt. The external service refuses any
/// record already under its control, so delegating while delegated fails
/// with `DelegationRejected`; an external rejection fails the same way. Only
/// a successful handoff moves authority, and failure leaves the room exactly
/// as it was.
pub open spec fn delegate_step(room: ChatRoomView, response: ServiceResponse) -> (ChatRoomView, Result<
    (),
    ChatError,
>) {
    if room.context is Delegated {
        (room, Err(ChatError::DelegationRejected))
    } else if response is Rejected {
        (room, Err(ChatError::DelegationRejected))
    } else {
        (
            ChatRoomView {
                message_count: room.message_count,
                history: room.history,
                context: OwnershipContext::Delegated,
            },
            Ok(()),
        )
    }
}

/// The outcome of one undelegation attempt. The external service has no
/// record of controlling an undelegated address and refuses to revoke it, so
/// undelegating while in the base context fails with `UndelegationRejected`,
/// as does an external rejection. Success returns authority to the base
/// context; the counter and history are untouched either way.
pub open spec fn undelegate_step(room: ChatRoomView, response: ServiceResponse) -> (ChatRoomView, Result<
    (),
    ChatError,
>) {
    if room.context is Base {
        (room, Err(ChatError::UndelegationRejected))
    } else if response is Rejected {
        (room, Err(ChatError::UndelegationRejected))
    } else {
        (
            ChatRoomView {
                message_count: room.message_count,
                history: room.history,
                context: OwnershipContext::Base,
            },
            Ok(()),
        )
    }
}

/// The specification-level value of a send's result.
pub open spec fn notification_view(r: Result<MessageSent, ChatError>) -> Result<
    MessageSentView,
    ChatError,
> {
    match r {
        Ok(n) => Ok(n@),
        Err(e) => Err(e),
    }
}

/// A room: a monotonic message counter, a bounded history, and the execution
/// context that currently holds mutation authority over them.
pub struct ChatRoom {
    message_count: u64,
    history: BoundedHistory,
    context: OwnershipContext,
}

impl View for ChatRoom {
    type V = ChatRoomView;

    closed spec fn view(&self) -> ChatRoomView {
        ChatRoomView {
            message_count: self.message_count as int,
            history: self.history@,
            context: self.context,
        }
    }
}

impl ChatRoom {
    /// The room's invariants, stated over its specification value.
    pub open spec fn wf(&self) -> bool {
        self@.wf()
    }

    /// Creates a room in its initial state: counter zero, empty history,
    /// authority held by the base context.
    pub fn new() -> (r: Self)
        ensures
            r@ == fresh_room(),
            r.wf(),
    {
        let r = ChatRoom {
            message_count: 0,
            history: BoundedHistory::new(),
            context: OwnershipContext::Base,
        };
        proof {
            assert(r@ =~= fresh_room());
        }
        r
    }

    /// A room reassembled from persisted parts. The counter must be at least
    /// the history's length, as every run of sends leaves it.
    pub fn from_parts(message_count: u64, history: BoundedHistory, context: OwnershipContext) -> (r:
        Self)
        requires
            history.wf(),
            message_count >= history@.len(),
        ensures
            r@ == (ChatRoomView { message_count: message_count as int, history: history@, context }),
            r.wf(),
    {
        ChatRoom { message_count, history, context }
    }

    /// The number of successful sends over the room's whole lifetime.
    pub fn message_count(&self) -> (n: u64)
        ensures
            n == self@.message_count,
    {
        self.message_count
    }

    /// Which context currently holds mutation authority.
    pub fn context(&self) -> (c: OwnershipContext)
        ensures
            c == self@.context,
    {
        self.context
    }

    /// The number of retained messages.
    pub fn history_len(&self) -> (n: usize)
        ensures
            n == self@.history.len(),
    {
        self.history.len()
    }

    /// Read access to the message at position `i` of the history, oldest
    /// first.
    pub fn history_at(&self, i: usize) -> (m: &ChatMessage)
        requires
            i < self@.history.len(),
        ensures
            m@ == self@.history[i as int],
    {
        self.history.get(i)
    }

    /// Appends one message under the base context and returns the matching
    /// notification; fails with `WrongContext`, mutating nothing, while the
    /// room is delegated. One timestamp reading serves both the stored
    /// message and the notification.
    pub fn send(&mut self, sender: &Identity, content: String, now: i64) -> (r: Result<
        MessageSent,
        ChatError,
    >)
        requires
            old(self).wf(),
            old(self)@.message_count < u64::MAX,
        ensures
            final(self).wf(),
            final(self)@ == send_step(old(self)@, ChatMessageView {
                sender: sender@,
                content: content@,
                timestamp: now as int,
            }).0,
            notification_view(r) == send_step(old(self)@, ChatMessageView {
                sender: sender@,
                content: content@,
                timestamp: now as int,
            }).1,
    {
        match self.context {
            OwnershipContext::Base => {
                self.message_count = self.message_count + 1;
                let notification = MessageSent {
                    sender: *sender,
                    content: content.clone(),
                    timestamp: now,
                };
                let message = ChatMessage { sender: *sender, content, timestamp: now };
                self.history.append(message);
                proof {
                    assert(self@ =~= send_step(old(self)@, ChatMessageView {
                        sender: sender@,
                        content: content@,
                        timestamp: now as int,
                    }).0);
                }
                Ok(notification)
            },
            OwnershipContext::Delegated => Err(ChatError::WrongContext),
        }
    }

    /// Hands mutation authority to the delegated context. `response` is the
    /// external delegation service's answer to the acceptance request for
    /// this record's address; the transition is per `delegate_step`: a room
    /// already delegated or an external rejection fails with
    /// `DelegationRejected` and changes nothing.
    pub fn delegate(&mut self, response: ServiceResponse) -> (r: Result<(), ChatError>)
        requires
            old(self).wf(),
        ensures
            final(self).wf(),
            final(self)@ == delegate_step(old(self)@, response).0,
            r == delegate_step(old(self)@, response).1,
    {
        match self.context {
            OwnershipContext::Delegated => Err(ChatError::DelegationRejected),
            OwnershipContext::Base => {
                match response {
                    ServiceResponse::Rejected => Err(ChatError::DelegationRejected),
                    ServiceResponse::Accepted => {
                        self.context = OwnershipContext::Delegated;
                        Ok(())
                    },
                }
            },
        }
    }

    /// Returns mutation authority to the base context. `response` is the
    /// external delegation service's answer to the revocation request; the
    /// transition is per `undelegate_step`: a room not delegated or an
    /// external rejection fails with `UndelegationRejected` and changes
    /// nothing.
    pub fn undelegate(&mut self, response: ServiceResponse) -> (r: Result<(), ChatError>)
        requires
            old(self).wf(),
        ensures
            final(self).wf(),
            final(self)@ == undelegate_step(old(self)@, response).0,
            r == undelegate_step(old(self)@, response).1,
    {
        match self.context {
            OwnershipContext::Base => Err(ChatError::UndelegationRejected),
            OwnershipContext::Delegated => {
                match response {
                    ServiceResponse::Rejected => Err(ChatError::UndelegationRejected),
                    ServiceResponse::Accepted => {
                        self.context = OwnershipContext::Base;
                        Ok(())
                    },
                }
            },
        }
    }
}

} // verus!
