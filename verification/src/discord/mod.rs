//! The first Discord front end: transceivers held in slots that commands can
//! empty, with separate registries of senders and receivers, and a transferer
//! that tells which registry an id belongs to.

pub mod impl_commands;
pub mod receivers;
pub mod senders;
pub mod transceiver;
pub mod transferer;

use vstd::prelude::*;

verus! {

/// Why a request to this front end was refused.
#[derive(Debug, Clone, Copy, PartialEq, Eq, Structural)]
pub enum DiscordError {
    /// The transferer knows no such id.
    NotFound,
    /// No registered entry has the id.
    NotRegistered,
    /// The subscription is there already.
    AlreadyExists,
    /// The slot was emptied before.
    AlreadyDeleted,
}

impl DiscordError {
    /// The message that goes with the error.
    pub fn message(&self) -> (m: &'static str)
        ensures
            m@ == match *self {
                DiscordError::NotFound => "not found."@,
                DiscordError::NotRegistered => "not found (was not registered)."@,
                DiscordError::AlreadyExists => "already exists (duplicate id)."@,
                DiscordError::AlreadyDeleted => "not found (already deleted)."@,
            },
    {
        match self {
            DiscordError::NotFound => "not found.",
            DiscordError::NotRegistered => "not found (was not registered).",
            DiscordError::AlreadyExists => "already exists (duplicate id).",
            DiscordError::AlreadyDeleted => "not found (already deleted).",
        }
    }
}

} // verus!
