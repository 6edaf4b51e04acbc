use std::sync::Arc;

use two_meat::commands::{DropCommand, ExitCommand, NewCommand, SubscCommand};
use two_meat::discord::receivers::DiscordReceivers;
use two_meat::discord::senders::DiscordSenders;
use two_meat::discord::transceiver::{
    drop_reply_step, DiscordTransceiver, DiscordTransceivers, DropProgress, Signal, Transceiver,
    Transceivers,
};
use two_meat::discord::transferer::Transferer;
use two_meat::discord::DiscordError;
use two_meat::model::data::Place;

fn registry() -> DiscordTransceivers {
    DiscordTransceivers::new(Arc::new(Transferer::new()))
}

#[test]
fn transferer_without_entries_knows_nothing() {
    let t = Transferer::new();
    assert!(matches!(t.which_is(5), Err(DiscordError::NotFound)));
    assert!(!t.contains(5));
}

#[test]
fn empty_sender_and_receiver_registries_find_nothing() {
    let senders = DiscordSenders::new(Arc::new(Transferer::new()));
    assert!(matches!(senders.get(1), Err(DiscordError::NotRegistered)));
    let receivers = DiscordReceivers::new(Arc::new(Transferer::new()));
    assert!(matches!(receivers.get(1), Err(DiscordError::NotRegistered)));
}

#[test]
fn new_children_fill_new_slots() {
    let mut reg = registry();
    assert_eq!(reg.get_children(), Vec::<Option<u128>>::new());
    assert_eq!(reg.new_child(40), 0);
    assert_eq!(reg.new_child(41), 1);
    assert_eq!(reg.get_children(), vec![Some(40), Some(41)]);
    assert_eq!(reg.on_child_drop(41), 1);
    assert_eq!(reg.new_id(77), 77);
    assert!(matches!(reg.get_child(42), Err(DiscordError::NotRegistered)));
    assert!(!reg.slot(1).as_ref().unwrap().contain_subscribe_id(40));
}

#[test]
fn new_com_and_drop_com_on_slots() {
    let mut parent = Some(registry());
    assert_eq!(DiscordTransceiver::new_com(&mut parent, Place::Unknown, 9), Ok(0));
    let reg = parent.as_mut().unwrap();
    assert_eq!(reg.slot(0).drop_com(), Ok(()));
    assert_eq!(reg.slot(0).drop_com(), Err(DiscordError::AlreadyDeleted));
    assert_eq!(reg.get_children(), vec![None]);
}

#[test]
fn subscribe_and_exit_commands() {
    let mut reg = registry();
    for id in 0..3 {
        reg.new_child(id);
    }
    let mut a = std::mem::take(reg.slot(0));
    let b = std::mem::take(reg.slot(1));
    let c = std::mem::take(reg.slot(2));
    let b_id = b.as_ref().unwrap().get_id();
    let c_id = c.as_ref().unwrap().get_id();
    assert_eq!(a.subsc_com(&b), Ok(()));
    assert_eq!(a.subsc_com(&c), Ok(()));
    assert!(a.as_ref().unwrap().contain_subscribe_id(b_id));
    assert_eq!(a.exit_com(&b), Ok(()));
    assert!(!a.as_ref().unwrap().contain_subscribe_id(b_id));
    assert!(a.as_ref().unwrap().contain_subscribe_id(c_id));
}

#[test]
fn subscribe_push_and_remove_refusals() {
    let mut reg = registry();
    reg.new_child(7);
    reg.new_child(8);
    let mut a = std::mem::take(reg.slot(0)).unwrap();
    let other = reg.get_children()[1].unwrap();
    assert_eq!(other, 8);
    assert_eq!(a.subscribe_remove(other), Err(DiscordError::NotFound));
    assert_eq!(a.subscribe_push(other), Ok(()));
    assert_eq!(a.subscribe_push(other), Err(DiscordError::AlreadyExists));
    assert_eq!(a.subscribe_push(other ^ 1), Ok(()));
    assert_eq!(a.subscribe_remove(other), Ok(()));
    assert!(!a.contain_subscribe_id(other));
}

#[test]
fn drop_handshake_steps() {
    assert_eq!(drop_reply_step(9, None), DropProgress::Waiting);
    assert_eq!(drop_reply_step(9, Some(Signal::DropSuccess(9))), DropProgress::Finished);
}

#[test]
fn discord_error_messages() {
    assert_eq!(DiscordError::NotFound.message(), "not found.");
    assert_eq!(DiscordError::NotRegistered.message(), "not found (was not registered).");
    assert_eq!(DiscordError::AlreadyExists.message(), "already exists (duplicate id).");
    assert_eq!(DiscordError::AlreadyDeleted.message(), "not found (already deleted).");
}

#[test]
fn unchecked_handler_accepts_any_error() {
    let handler = two_meat::unchecked::<DiscordError>();
    handler(DiscordError::NotFound);
    let r: Result<(), DiscordError> = Err(DiscordError::AlreadyDeleted);
    r.unwrap_or_else(two_meat::unchecked());
}
