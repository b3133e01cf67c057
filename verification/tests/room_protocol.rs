//! The ownership-handoff protocol on a single room.

use frequencii_chat::errors::ChatError;
use frequencii_chat::identity::Identity;
use frequencii_chat::room::{ChatRoom, OwnershipContext, ServiceResponse};
use frequencii_chat::CAPACITY;

fn ident(b: u8) -> Identity {
    Identity::new([b; 32])
}

#[test]
fn fresh_room_is_empty_and_base() {
    let room = ChatRoom::new();
    assert_eq!(room.message_count(), 0);
    assert_eq!(room.history_len(), 0);
    assert_eq!(room.context(), OwnershipContext::Base);
}

#[test]
fn count_equals_number_of_sends() {
    let mut room = ChatRoom::new();
    let alice = ident(1);
    for i in 0..5 {
        let r = room.send(&alice, format!("message {}", i), 100 + i);
        assert!(r.is_ok());
    }
    assert_eq!(room.message_count(), 5);
    assert_eq!(room.history_len(), 5);
}

#[test]
fn history_keeps_the_twenty_most_recent() {
    let mut room = ChatRoom::new();
    let alice = ident(1);
    for i in 0..25i64 {
        let r = room.send(&alice, format!("message {}", i), i);
        assert!(r.is_ok());
    }
    assert_eq!(room.message_count(), 25);
    assert_eq!(room.history_len(), CAPACITY);
    for j in 0..CAPACITY {
        let m = room.history_at(j);
        assert_eq!(m.content, format!("message {}", j + 5));
        assert_eq!(m.timestamp, (j + 5) as i64);
        assert!(m.sender.same_as(&alice));
    }
}

#[test]
fn notification_mirrors_the_stored_message() {
    let mut room = ChatRoom::new();
    let alice = ident(7);
    let n = room.send(&alice, String::from("hello"), 99).unwrap();
    assert!(n.sender.same_as(&alice));
    assert_eq!(n.content, "hello");
    assert_eq!(n.timestamp, 99);
    let stored = room.history_at(0);
    assert!(stored.sender.same_as(&alice));
    assert_eq!(stored.content, "hello");
    assert_eq!(stored.timestamp, n.timestamp);
}

#[test]
fn send_fails_while_delegated_and_mutates_nothing() {
    let mut room = ChatRoom::new();
    let alice = ident(1);
    room.send(&alice, String::from("before"), 1).unwrap();
    room.delegate(ServiceResponse::Accepted).unwrap();
    let r = room.send(&alice, String::from("blocked"), 2);
    assert_eq!(r.unwrap_err(), ChatError::WrongContext);
    assert_eq!(room.message_count(), 1);
    assert_eq!(room.history_len(), 1);
    assert_eq!(room.history_at(0).content, "before");
    assert_eq!(room.context(), OwnershipContext::Delegated);
}

#[test]
fn handoff_round_trip_is_transparent() {
    let alice = ident(1);

    let mut with_handoff = ChatRoom::new();
    with_handoff.send(&alice, String::from("one"), 1).unwrap();
    with_handoff.delegate(ServiceResponse::Accepted).unwrap();
    with_handoff.undelegate(ServiceResponse::Accepted).unwrap();
    let n1 = with_handoff.send(&alice, String::from("two"), 2).unwrap();

    let mut plain = ChatRoom::new();
    plain.send(&alice, String::from("one"), 1).unwrap();
    let n2 = plain.send(&alice, String::from("two"), 2).unwrap();

    assert_eq!(with_handoff.message_count(), plain.message_count());
    assert_eq!(with_handoff.history_len(), plain.history_len());
    for j in 0..plain.history_len() {
        assert_eq!(with_handoff.history_at(j).content, plain.history_at(j).content);
        assert_eq!(with_handoff.history_at(j).timestamp, plain.history_at(j).timestamp);
    }
    assert_eq!(n1.content, n2.content);
    assert_eq!(with_handoff.context(), OwnershipContext::Base);
}

#[test]
fn double_delegation_is_rejected() {
    let mut room = ChatRoom::new();
    room.delegate(ServiceResponse::Accepted).unwrap();
    let second = room.delegate(ServiceResponse::Accepted);
    assert_eq!(second.unwrap_err(), ChatError::DelegationRejected);
    assert_eq!(room.context(), OwnershipContext::Delegated);
}

#[test]
fn external_rejection_leaves_context_alone() {
    let mut room = ChatRoom::new();
    let r = room.delegate(ServiceResponse::Rejected);
    assert_eq!(r.unwrap_err(), ChatError::DelegationRejected);
    assert_eq!(room.context(), OwnershipContext::Base);

    room.delegate(ServiceResponse::Accepted).unwrap();
    let r = room.undelegate(ServiceResponse::Rejected);
    assert_eq!(r.unwrap_err(), ChatError::UndelegationRejected);
    assert_eq!(room.context(), OwnershipContext::Delegated);
}

#[test]
fn undelegate_in_base_context_is_rejected() {
    let mut room = ChatRoom::new();
    let r = room.undelegate(ServiceResponse::Accepted);
    assert_eq!(r.unwrap_err(), ChatError::UndelegationRejected);
    assert_eq!(room.context(), OwnershipContext::Base);
}

#[test]
fn counter_survives_delegation_cycles() {
    let mut room = ChatRoom::new();
    let alice = ident(3);
    for i in 0..4i64 {
        room.send(&alice, format!("m{}", i), i).unwrap();
    }
    for _ in 0..3 {
        room.delegate(ServiceResponse::Accepted).unwrap();
        room.undelegate(ServiceResponse::Accepted).unwrap();
    }
    assert_eq!(room.message_count(), 4);
    room.send(&alice, String::from("after"), 10).unwrap();
    assert_eq!(room.message_count(), 5);
}

#[test]
fn identity_equality_is_by_key() {
    let a = ident(1);
    let b = ident(1);
    let c = ident(2);
    assert!(a.same_as(&b));
    assert!(!a.same_as(&c));
}

#[test]
fn error_descriptions_are_distinct() {
    let all = [
        ChatError::AlreadyInitialized,
        ChatError::Unauthorized,
        ChatError::WrongContext,
        ChatError::DelegationRejected,
        ChatError::UndelegationRejected,
        ChatError::AddressMismatch,
    ];
    for (i, e) in all.iter().enumerate() {
        assert!(!e.describe().is_empty());
        for (j, f) in all.iter().enumerate() {
            if i != j {
                assert_ne!(e.describe(), f.describe());
            }
        }
    }
}
