use two_meat::transceiver::{drop_verdict, TransceiverError, Transceivers};

#[test]
fn new_instances_take_the_drawn_ids() {
    let mut reg = Transceivers::new();
    let a = reg.new_instance(11).unwrap();
    let b = reg.new_instance(22).unwrap();
    assert_eq!(a.id(), 11);
    assert_eq!(b.id(), 22);
    assert!(reg.child_exists(11));
    assert!(reg.child_exists(22));
    assert!(!reg.child_exists(33));
}

#[test]
fn a_drawn_id_that_is_taken_is_refused() {
    let mut reg = Transceivers::new();
    let _a = reg.new_instance(5).unwrap();
    assert!(reg.new_instance(5).is_none());
    assert!(reg.new_instance(6).is_some());
    assert_eq!(reg.drop_child(5), Err(TransceiverError::StillReferenced));
}

#[test]
fn get_child_finds_only_registered_ids() {
    let mut reg = Transceivers::new();
    let a = reg.new_instance(101).unwrap();
    match reg.get_child(a.id()) {
        Ok(h) => assert_eq!(h.id(), a.id()),
        Err(_) => panic!("registered child not found"),
    }
    assert!(matches!(reg.get_child(a.id().wrapping_add(1)), Err(TransceiverError::NotFound)));
    let empty = Transceivers::new();
    assert!(matches!(empty.get_child(0), Err(TransceiverError::NotFound)));
    assert!(!empty.child_exists(0));
}

#[test]
fn subscribe_refuses_unknown_ids_subscriber_first() {
    let mut reg = Transceivers::new();
    let a = reg.new_instance(102).unwrap().id();
    let unknown = a.wrapping_add(7);
    assert_eq!(reg.add_subscribe_child(unknown, unknown), Err(TransceiverError::SubscriberNotFound));
    assert_eq!(reg.add_subscribe_child(unknown, a), Err(TransceiverError::SubscriberNotFound));
    assert_eq!(reg.add_subscribe_child(a, unknown), Err(TransceiverError::BroadcasterNotFound));
    assert_eq!(reg.remove_subscribe_child(unknown, a), Err(TransceiverError::SubscriberNotFound));
    assert_eq!(reg.remove_subscribe_child(a, unknown), Err(TransceiverError::BroadcasterNotFound));
}

#[test]
fn subscribe_then_unsubscribe_round_trip() {
    let mut reg = Transceivers::new();
    let a = reg.new_instance(103).unwrap().id();
    let b = reg.new_instance(104).unwrap().id();
    assert_eq!(reg.remove_subscribe_child(a, b), Err(TransceiverError::NotSubscribed));
    assert_eq!(reg.add_subscribe_child(a, b), Ok(()));
    assert_eq!(reg.remove_subscribe_child(a, b), Ok(()));
    assert_eq!(reg.remove_subscribe_child(a, b), Err(TransceiverError::NotSubscribed));
    assert_eq!(reg.add_subscribe_child(a, a), Ok(()));
    assert_eq!(reg.remove_subscribe_child(a, a), Ok(()));
}

#[test]
fn drop_unknown_child_is_not_found() {
    let mut reg = Transceivers::new();
    assert_eq!(reg.drop_child(3), Err(TransceiverError::NotFound));
}

#[test]
fn drop_with_no_handle_left_succeeds() {
    let mut reg = Transceivers::new();
    let id = reg.new_instance(105).unwrap().id();
    assert_eq!(reg.drop_child(id), Ok(()));
    assert!(!reg.child_exists(id));
    assert_eq!(reg.drop_child(id), Err(TransceiverError::NotFound));
}

#[test]
fn drop_while_a_handle_is_held_reports_still_referenced() {
    let mut reg = Transceivers::new();
    let held = reg.new_instance(106).unwrap();
    let other = reg.new_instance(107).unwrap();
    assert_eq!(reg.drop_child(held.id()), Err(TransceiverError::StillReferenced));
    // the entry is gone all the same
    assert!(!reg.child_exists(held.id()));
    assert!(reg.child_exists(other.id()));
    let looked_up = reg.get_child(other.id());
    assert!(looked_up.is_ok());
    assert_eq!(reg.drop_child(other.id()), Err(TransceiverError::StillReferenced));
}

#[test]
fn drop_removes_subscriptions_to_the_dropped_child() {
    let mut reg = Transceivers::new();
    let a = reg.new_instance(108).unwrap().id();
    let b = reg.new_instance(109).unwrap().id();
    assert_eq!(reg.add_subscribe_child(a, b), Ok(()));
    assert_eq!(reg.add_subscribe_child(b, a), Ok(()));
    assert_eq!(reg.drop_child(b), Ok(()));
    assert!(!reg.child_exists(b));
    assert!(reg.child_exists(a));
    // b's id is free again; a transceiver made under it is no subscriber of a
    let b2 = reg.new_instance(b).unwrap().id();
    assert_eq!(b2, b);
    assert_eq!(reg.remove_subscribe_child(b, a), Err(TransceiverError::NotSubscribed));
}

#[test]
fn a_subscription_is_kept_by_the_broadcaster() {
    let mut reg = Transceivers::new();
    let sub = reg.new_instance(1).unwrap().id();
    let brc = reg.new_instance(2).unwrap().id();
    assert_eq!(reg.add_subscribe_child(sub, brc), Ok(()));
    // the reverse pair is no subscription
    assert_eq!(reg.remove_subscribe_child(brc, sub), Err(TransceiverError::NotSubscribed));
    assert_eq!(reg.remove_subscribe_child(sub, brc), Ok(()));
    // dropping the subscriber takes it out of the broadcaster's list
    assert_eq!(reg.add_subscribe_child(sub, brc), Ok(()));
    assert_eq!(reg.drop_child(sub), Ok(()));
    let _again = reg.new_instance(sub).unwrap();
    assert_eq!(reg.remove_subscribe_child(sub, brc), Err(TransceiverError::NotSubscribed));
}

#[test]
fn drop_verdict_counts_references() {
    assert_eq!(drop_verdict(1), Ok(()));
    assert_eq!(drop_verdict(2), Err(TransceiverError::StillReferenced));
    assert_eq!(drop_verdict(usize::MAX), Err(TransceiverError::StillReferenced));
}

#[test]
fn transceiver_error_messages() {
    assert_eq!(TransceiverError::NotFound.message(), "not found.");
    assert_eq!(TransceiverError::SubscriberNotFound.message(), "not found (from subscriber_id).");
    assert_eq!(TransceiverError::BroadcasterNotFound.message(), "not found (from broadcaster_id).");
    assert_eq!(
        TransceiverError::NotSubscribed.message(),
        "not found (cannot find subscribing instance)."
    );
    assert_eq!(
        TransceiverError::StillReferenced.message(),
        "could not drop (reference count not zero)."
    );
}

#[test]
fn a_sequence_of_changes_keeps_ids_distinct() {
    let mut reg = Transceivers::new();
    let a = reg.new_instance(1).unwrap().id();
    let b = reg.new_instance(2).unwrap().id();
    assert!(reg.new_instance(1).is_none());
    assert_eq!(reg.add_subscribe_child(a, b), Ok(()));
    assert_eq!(reg.drop_child(a), Ok(()));
    assert_eq!(reg.drop_child(a), Err(TransceiverError::NotFound));
    assert!(reg.new_instance(a).is_some());
    assert!(reg.new_instance(b).is_none());
    reg.ids_distinct();
    assert!(reg.child_exists(a) && reg.child_exists(b));
}
