//! The protocol's laws, stated and proved over the specification-level
//! transitions of `room`.

use vstd::prelude::*;

use crate::errors::ChatError;
use crate::message::{ChatMessageView, MessageSentView};
use crate::room::{
    delegate_step, fresh_room, send_step, undelegate_step, ChatRoomView, ServiceResponse,
};
use crate::CAPACITY;

verus! {

/// The room after a whole sequence of sends, applied oldest first.
pub open spec fn sends(room: ChatRoomView, msgs: Seq<ChatMessageView>) -> ChatRoomView
    decreases msgs.len(),
{
    if msgs.len() == 0 {
        room
    } else {
        sends(send_step(room, msgs[0]).0, msgs.drop_first())
    }
}

/// True when every send of the sequence returns a notification rather than
/// an error.
pub open spec fn all_sends_succeed(room: ChatRoomView, msgs: Seq<ChatMessageView>) -> bool
    decreases msgs.len(),
{
    msgs.len() == 0 || (send_step(room, msgs[0]).1 is Ok && all_sends_succeed(
        send_step(room, msgs[0]).0,
        msgs.drop_first(),
    ))
}

/// The messages a history retains after a batch of appends: everything, in
/// order, until capacity is reached, and from then on only the most recent
/// `CAPACITY` entries.
pub open spec fn retained(h: Seq<ChatMessageView>, msgs: Seq<ChatMessageView>) -> Seq<
    ChatMessageView,
> {
    let all = h + msgs;
    if all.len() <= CAPACITY {
        all
    } else {
        all.skip(all.len() - CAPACITY)
    }
}

/// While the base context holds authority, every send succeeds, authority
/// stays where it is, and the counter grows by exactly the number of sends.
pub proof fn lemma_sends_base(room: ChatRoomView, msgs: Seq<ChatMessageView>)
    requires
        room.context is Base,
    ensures
        all_sends_succeed(room, msgs),
        sends(room, msgs).context == room.context,
        sends(room, msgs).message_count == room.message_count + msgs.len(),
    decreases msgs.len(),
{
    if msgs.len() > 0 {
        lemma_sends_base(send_step(room, msgs[0]).0, msgs.drop_first());
    }
}

/// While the base context holds authority, the history after a batch of
/// sends is exactly `retained` of the old history and the batch.
pub proof fn lemma_sends_history(room: ChatRoomView, msgs: Seq<ChatMessageView>)
    requires
        room.context is Base,
        room.history.len() <= CAPACITY,
    ensures
        sends(room, msgs).history =~= retained(room.history, msgs),
    decreases msgs.len(),
{
    if msgs.len() > 0 {
        let h = room.history;
        let m0 = msgs[0];
        let rest = msgs.drop_first();
        let next = send_step(room, m0).0;
        lemma_sends_history(next, rest);
        if h.len() < CAPACITY {
            assert(next.history + rest =~= h + msgs);
        } else {
            assert(next.history =~= h.drop_first().push(m0));
            assert(retained(next.history, rest) =~= retained(h, msgs)) by {
                let lhs = retained(next.history, rest);
                let rhs = retained(h, msgs);
                assert(lhs.len() == CAPACITY);
                assert(rhs.len() == CAPACITY);
                assert forall|j: int| 0 <= j < CAPACITY implies lhs[j] == rhs[j] by {
                    let all1 = next.history + rest;
                    let all = h + msgs;
                    assert(lhs[j] == all1[j + rest.len()]);
                    assert(rhs[j] == all[j + rest.len() + 1]);
                    if j + rest.len() < CAPACITY {
                        if j + rest.len() < CAPACITY - 1 {
                            assert(all1[j + rest.len()] == h[j + rest.len() + 1]);
                            assert(all[j + rest.len() + 1] == h[j + rest.len() + 1]);
                        } else {
                            assert(all1[j + rest.len()] == m0);
                            assert(all[j + rest.len() + 1] == msgs[0]);
                        }
                    } else {
                        assert(all1[j + rest.len()] == rest[j + rest.len() - CAPACITY]);
                        assert(all[j + rest.len() + 1] == msgs[j + rest.len() + 1 - CAPACITY]);
                    }
                }
            }
        }
    } else {
        assert(retained(room.history, msgs) =~= room.history);
    }
}

/// After any sequence of sends beginning at a fresh room, every send
/// succeeds and the counter equals exactly the number of sends; delegation
/// cycles never reset it, since neither handoff direction touches the
/// counter.
pub proof fn lemma_count_equals_sends(msgs: Seq<ChatMessageView>)
    ensures
        all_sends_succeed(fresh_room(), msgs),
        sends(fresh_room(), msgs).message_count == msgs.len(),
{
    lemma_sends_base(fresh_room(), msgs);
}

/// Once at least `CAPACITY` messages have been sent to a fresh room, the
/// history's length stays at `CAPACITY` and it holds exactly the `CAPACITY`
/// most recently appended messages, in insertion order.
pub proof fn lemma_history_most_recent(msgs: Seq<ChatMessageView>)
    requires
        msgs.len() >= CAPACITY,
    ensures
        sends(fresh_room(), msgs).history =~= msgs.skip(msgs.len() - CAPACITY),
        sends(fresh_room(), msgs).history.len() == CAPACITY,
{
    lemma_sends_history(fresh_room(), msgs);
    assert(Seq::<ChatMessageView>::empty() + msgs =~= msgs);
    assert(retained(Seq::<ChatMessageView>::empty(), msgs) =~= msgs.skip(
        msgs.len() - CAPACITY,
    ));
}

/// Every transition preserves the room's invariants: the history stays
/// within capacity and the counter never falls below the history's length,
/// even though the history evicts.
pub proof fn lemma_steps_preserve_wf(
    room: ChatRoomView,
    m: ChatMessageView,
    response: ServiceResponse,
)
    requires
        room.wf(),
    ensures
        send_step(room, m).0.wf(),
        delegate_step(room, response).0.wf(),
        undelegate_step(room, response).0.wf(),
{
}

/// A send attempted right after a successful delegation fails with
/// `WrongContext` and mutates nothing.
pub proof fn lemma_send_after_delegate_fails(
    room: ChatRoomView,
    response: ServiceResponse,
    m: ChatMessageView,
)
    requires
        delegate_step(room, response).1 is Ok,
    ensures
        ({
            let d = delegate_step(room, response).0;
            &&& send_step(d, m).1 == Err::<MessageSentView, ChatError>(ChatError::WrongContext)
            &&& send_step(d, m).0 == d
        }),
{
}

/// A send that fails leaves the room exactly as it was: neither the counter
/// nor the history nor the context moves.
pub proof fn lemma_failed_send_mutates_nothing(room: ChatRoomView, m: ChatMessageView)
    requires
        send_step(room, m).1 is Err,
    ensures
        send_step(room, m).0 == room,
{
}

/// A delegation immediately followed by an undelegation restores the room
/// exactly, so a send after the round trip has the very same observable
/// effect as an uninterrupted send.
pub proof fn lemma_handoff_transparent(room: ChatRoomView, m: ChatMessageView)
    requires
        room.context is Base,
    ensures
        ({
            let d = delegate_step(room, ServiceResponse::Accepted).0;
            let b = undelegate_step(d, ServiceResponse::Accepted).0;
            &&& delegate_step(room, ServiceResponse::Accepted).1 is Ok
            &&& undelegate_step(d, ServiceResponse::Accepted).1 is Ok
            &&& b == room
            &&& send_step(b, m) == send_step(room, m)
        }),
{
    assert(undelegate_step(delegate_step(room, ServiceResponse::Accepted).0,
        ServiceResponse::Accepted,
    ).0 =~= room);
}

/// A second delegation without an intervening undelegation is rejected —
/// the service refuses an address already under its control — and the
/// context stays delegated, the room otherwise untouched.
pub proof fn lemma_no_double_delegation(
    room: ChatRoomView,
    first: ServiceResponse,
    second: ServiceResponse,
)
    requires
        delegate_step(room, first).1 is Ok,
    ensures
        ({
            let d = delegate_step(room, first).0;
            &&& d.context is Delegated
            &&& delegate_step(d, second).1 == Err::<(), ChatError>(ChatError::DelegationRejected)
            &&& delegate_step(d, second).0 == d
        }),
{
}

} // verus!
