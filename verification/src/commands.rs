//! The commands a user gives about transceivers, as traits that a front
//! end's types implement.

use vstd::prelude::*;

use crate::discord::DiscordError;
use crate::model::data::Place;

verus! {

/// Makes a new `Self` inside `parent`, for the front end `place`; `drawn` is
/// a random value drawn by the caller, from which the new one's id comes.
pub trait NewCommand<T>: Sized {
    /// `parent` is in a state where a command can make a child.
    spec fn can_create(parent: &T) -> bool;

    fn new_com(parent: &mut T, place: Place, drawn: u128) -> (r: Result<usize, DiscordError>)
        requires
            Self::can_create(old(parent)),
    ;
}

/// Changes a transceiver (deprecated: no change is defined).
pub trait MutCommand {
    fn mut_com(&self) -> Result<(), DiscordError>;
}

/// Drops the value behind a handle.
pub trait DropCommand {
    fn drop_com(&mut self) -> Result<(), DiscordError>;
}

/// Makes `self` subscribe to `target`.
pub trait SubscCommand<T> {
    /// The subscription can be made without a fault.
    spec fn can_subscribe(&self, target: &T) -> bool;

    fn subsc_com(&mut self, target: &T) -> (r: Result<(), DiscordError>)
        requires
            old(self).can_subscribe(target),
    ;
}

/// Makes `self` stop subscribing to `target`.
pub trait ExitCommand<T> {
    /// The subscription can be ended without a fault.
    spec fn can_exit(&self, target: &T) -> bool;

    fn exit_com(&mut self, target: &T) -> (r: Result<(), DiscordError>)
        requires
            old(self).can_exit(target),
    ;
}

} // verus!
