//! A fixed-capacity, oldest-first message history with FIFO eviction.

use vstd::prelude::*;

use crate::message::{ChatMessage, ChatMessageView};
use crate::CAPACITY;

verus! {

/// What one append does to a history that respects the capacity: the new
/// message goes at the end, and if the history is already full the oldest
/// entry (index 0) is evicted first. Eviction is unconditional on overflow,
/// never based on access.
pub open spec fn history_append(h: Seq<ChatMessageView>, m: ChatMessageView) -> Seq<ChatMessageView> {
    if h.len() < CAPACITY {
        h.push(m)
    } else {
        h.drop_first().push(m)
    }
}

/// An ordered sequence of at most `CAPACITY` messages, oldest first,
/// insertion order preserved.
pub struct BoundedHistory {
    entries: Vec<ChatMessage>,
}

impl View for BoundedHistory {
    type V = Seq<ChatMessageView>;

    closed spec fn view(&self) -> Seq<ChatMessageView> {
        self.entries@.map(|i: int, m: ChatMessage| m@)
    }
}

impl BoundedHistory {
    /// The capacity bound every history maintains.
    pub open spec fn wf(&self) -> bool {
        self@.len() <= CAPACITY
    }

    /// An empty history.
    pub fn new() -> (h: Self)
        ensures
            h@ =~= Seq::<ChatMessageView>::empty(),
            h.wf(),
    {
        BoundedHistory { entries: Vec::new() }
    }

    /// A history holding the given messages, oldest first. The capacity
    /// bound is the caller's obligation; persisted data that respects it can
    /// be reloaded through this.
    pub fn from_messages(messages: Vec<ChatMessage>) -> (h: Self)
        requires
            messages@.len() <= CAPACITY,
        ensures
            h@ =~= messages@.map(|i: int, m: ChatMessage| m@),
            h.wf(),
    {
        BoundedHistory { entries: messages }
    }

    /// The number of retained messages.
    pub fn len(&self) -> (n: usize)
        ensures
            n == self@.len(),
    {
        self.entries.len()
    }

    /// Read access to the message at position `i`, oldest first.
    pub fn get(&self, i: usize) -> (m: &ChatMessage)
        requires
            i < self@.len(),
        ensures
            m@ == self@[i as int],
    {
        &self.entries[i]
    }

    /// Appends `m`; when the history is full, the oldest entry is evicted in
    /// the same step, so no intermediate state is observable. Append never
    /// fails: capacity enforcement is internal and silent.
    pub fn append(&mut self, m: ChatMessage)
        requires
            old(self).wf(),
        ensures
            final(self).wf(),
            final(self)@ =~= history_append(old(self)@, m@),
    {
        let ghost pre = self.entries@;
        if self.entries.len() >= CAPACITY {
            self.entries.remove(0);
            proof {
                assert(self.entries@ =~= pre.drop_first());
                assert(self.entries@.map(|i: int, e: ChatMessage| e@) =~= pre.map(
                    |i: int,
                    e: ChatMessage,
                | e@).drop_first());
            }
        }
        let ghost mid = self.entries@;
        self.entries.push(m);
        proof {
            assert(self.entries@.map(|i: int, e: ChatMessage| e@) =~= mid.map(
                |i: int,
                e: ChatMessage,
            | e@).push(m@));
        }
    }
}

} // verus!
