//! The addressed operations: initialization, authorization, and independence
//! of records under distinct namespace tags.

use frequencii_chat::errors::ChatError;
use frequencii_chat::identity::Identity;
use frequencii_chat::ledger::Ledger;
use frequencii_chat::room::{OwnershipContext, ServiceResponse};

fn ident(b: u8) -> Identity {
    Identity::new([b; 32])
}

fn tag(s: &str) -> Vec<u8> {
    s.as_bytes().to_vec()
}

#[test]
fn initialize_creates_an_empty_room() {
    let mut ledger = Ledger::new();
    let alice = ident(1);
    assert!(ledger.room(&alice, &tag("chat_v2")).is_none());
    ledger.initialize(&alice, tag("chat_v2")).unwrap();
    let room = ledger.room(&alice, &tag("chat_v2")).unwrap();
    assert_eq!(room.message_count(), 0);
    assert_eq!(room.history_len(), 0);
    assert_eq!(room.context(), OwnershipContext::Base);
}

#[test]
fn initialize_twice_fails() {
    let mut ledger = Ledger::new();
    let alice = ident(1);
    ledger.initialize(&alice, tag("chat_v2")).unwrap();
    let r = ledger.initialize(&alice, tag("chat_v2"));
    assert_eq!(r.unwrap_err(), ChatError::AlreadyInitialized);
}

#[test]
fn operations_on_a_missing_record_fail() {
    let mut ledger = Ledger::new();
    let alice = ident(1);
    let r = ledger.send_message(&alice, &alice, &tag("chat_v2"), String::from("hi"), 1);
    assert_eq!(r.unwrap_err(), ChatError::AddressMismatch);
    let r = ledger.delegate_chat(&alice, &alice, &tag("chat_v2"), ServiceResponse::Accepted);
    assert_eq!(r.unwrap_err(), ChatError::AddressMismatch);
    let r = ledger.undelegate_chat(&alice, &alice, &tag("chat_v2"), ServiceResponse::Accepted);
    assert_eq!(r.unwrap_err(), ChatError::AddressMismatch);
}

#[test]
fn only_the_owner_may_move_authority() {
    let mut ledger = Ledger::new();
    let alice = ident(1);
    let mallory = ident(9);
    ledger.initialize(&alice, tag("chat_v2")).unwrap();

    let r = ledger.delegate_chat(&alice, &mallory, &tag("chat_v2"), ServiceResponse::Accepted);
    assert_eq!(r.unwrap_err(), ChatError::Unauthorized);
    assert_eq!(
        ledger.room(&alice, &tag("chat_v2")).unwrap().context(),
        OwnershipContext::Base
    );

    ledger
        .delegate_chat(&alice, &alice, &tag("chat_v2"), ServiceResponse::Accepted)
        .unwrap();
    let r = ledger.undelegate_chat(&alice, &mallory, &tag("chat_v2"), ServiceResponse::Accepted);
    assert_eq!(r.unwrap_err(), ChatError::Unauthorized);
    assert_eq!(
        ledger.room(&alice, &tag("chat_v2")).unwrap().context(),
        OwnershipContext::Delegated
    );
}

#[test]
fn records_of_distinct_tags_are_independent() {
    let mut ledger = Ledger::new();
    let alice = ident(1);
    ledger.initialize(&alice, tag("chat")).unwrap();
    ledger.initialize(&alice, tag("chat_v2")).unwrap();

    ledger
        .send_message(&alice, &alice, &tag("chat"), String::from("old schema"), 1)
        .unwrap();
    ledger
        .send_message(&alice, &alice, &tag("chat"), String::from("still old"), 2)
        .unwrap();
    ledger
        .send_message(&alice, &alice, &tag("chat_v2"), String::from("new schema"), 3)
        .unwrap();

    let old_room = ledger.room(&alice, &tag("chat")).unwrap();
    assert_eq!(old_room.message_count(), 2);
    assert_eq!(old_room.history_at(0).content, "old schema");

    let new_room = ledger.room(&alice, &tag("chat_v2")).unwrap();
    assert_eq!(new_room.message_count(), 1);
    assert_eq!(new_room.history_at(0).content, "new schema");

    ledger
        .delegate_chat(&alice, &alice, &tag("chat"), ServiceResponse::Accepted)
        .unwrap();
    assert_eq!(
        ledger.room(&alice, &tag("chat")).unwrap().context(),
        OwnershipContext::Delegated
    );
    assert_eq!(
        ledger.room(&alice, &tag("chat_v2")).unwrap().context(),
        OwnershipContext::Base
    );
}

#[test]
fn records_of_distinct_identities_are_independent() {
    let mut ledger = Ledger::new();
    let alice = ident(1);
    let bob = ident(2);
    ledger.initialize(&alice, tag("chat_v2")).unwrap();
    ledger.initialize(&bob, tag("chat_v2")).unwrap();
    ledger
        .send_message(&alice, &alice, &tag("chat_v2"), String::from("from alice"), 1)
        .unwrap();
    assert_eq!(ledger.room(&alice, &tag("chat_v2")).unwrap().message_count(), 1);
    assert_eq!(ledger.room(&bob, &tag("chat_v2")).unwrap().message_count(), 0);
}

#[test]
fn delegated_record_refuses_sends_through_the_ledger() {
    let mut ledger = Ledger::new();
    let alice = ident(1);
    ledger.initialize(&alice, tag("chat_v2")).unwrap();
    ledger
        .delegate_chat(&alice, &alice, &tag("chat_v2"), ServiceResponse::Accepted)
        .unwrap();
    let r = ledger.send_message(&alice, &alice, &tag("chat_v2"), String::from("no"), 1);
    assert_eq!(r.unwrap_err(), ChatError::WrongContext);
    assert_eq!(ledger.room(&alice, &tag("chat_v2")).unwrap().message_count(), 0);

    ledger
        .undelegate_chat(&alice, &alice, &tag("chat_v2"), ServiceResponse::Accepted)
        .unwrap();
    ledger
        .send_message(&alice, &alice, &tag("chat_v2"), String::from("yes"), 2)
        .unwrap();
    assert_eq!(ledger.room(&alice, &tag("chat_v2")).unwrap().message_count(), 1);
}
