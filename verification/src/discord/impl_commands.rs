//! The commands on the first design's transceivers. A transceiver is
//! reached through its slot, which is `None` once it was dropped.

use vstd::prelude::*;

use crate::commands::{DropCommand, ExitCommand, NewCommand, SubscCommand};
use crate::discord::transceiver::{DiscordTransceiver, DiscordTransceivers, Transceiver, Transceivers};
use crate::discord::DiscordError;
use crate::model::data::Place;

verus! {

impl NewCommand<Option<DiscordTransceivers>> for DiscordTransceiver {
    /// The registry is still there (an emptied registry slot is a fault).
    open spec fn can_create(parent: &Option<DiscordTransceivers>) -> bool {
        parent is Some
    }

    /// Makes a transceiver with id `drawn` in the registry; the answer is the
    /// position of its slot. `place` is not read.
    fn new_com(parent: &mut Option<DiscordTransceivers>, place: Place, drawn: u128) -> (r: Result<
        usize,
        DiscordError,
    >)
        ensures
            (*final(parent)) is Some,
            r == Ok::<usize, DiscordError>(old(parent).unwrap().slots().len() as usize),
            final(parent).unwrap().slots() == old(parent).unwrap().slots().push(Some(drawn)),
            final(parent).unwrap().children().subrange(0, old(parent).unwrap().slots().len() as int)
                == old(parent).unwrap().children(),
            final(parent).unwrap().children()[old(parent).unwrap().slots().len() as int] matches Some(
                t,
            ) && t.subscriptions() == Seq::<u128>::empty(),
            final(parent).unwrap().transferer() == old(parent).unwrap().transferer(),
    {
        match parent {
            Some(registry) => Ok(registry.new_child(drawn)),
            None => Err(DiscordError::AlreadyDeleted),
        }
    }
}

impl DropCommand for Option<DiscordTransceiver> {
    /// Empties the slot; `AlreadyDeleted` when it is empty already.
    fn drop_com(&mut self) -> (r: Result<(), DiscordError>)
        ensures
            (*final(self)) is None,
            r is Ok <==> (*old(self)) is Some,
            r is Err ==> r == Err::<(), DiscordError>(DiscordError::AlreadyDeleted),
    {
        match self {
            None => Err(DiscordError::AlreadyDeleted),
            Some(_) => {
                *self = None;
                Ok(())
            },
        }
    }
}

impl SubscCommand<Option<DiscordTransceiver>> for Option<DiscordTransceiver> {
    /// Both slots are filled, and `self` does not subscribe to `target` yet
    /// (a refused subscription is a fault here).
    open spec fn can_subscribe(&self, target: &Option<DiscordTransceiver>) -> bool {
        &&& self is Some
        &&& target is Some
        &&& !self.unwrap().subscriptions().contains(target.unwrap().ident())
    }

    /// `self` subscribes to `target`'s id.
    fn subsc_com(&mut self, target: &Option<DiscordTransceiver>) -> (r: Result<(), DiscordError>)
        ensures
            r is Ok,
            (*final(self)) is Some,
            final(self).unwrap().ident() == old(self).unwrap().ident(),
            final(self).unwrap().subscriptions() == old(self).unwrap().subscriptions().push(
                target.unwrap().ident(),
            ),
    {
        let target_id = match target {
            Some(t) => t.get_id(),
            None => return Err(DiscordError::AlreadyDeleted),
        };
        match self {
            Some(me) => {
                let _ = me.subscribe_push(target_id);
                Ok(())
            },
            None => Err(DiscordError::AlreadyDeleted),
        }
    }
}

impl ExitCommand<Option<DiscordTransceiver>> for Option<DiscordTransceiver> {
    /// Both slots are filled, `self` subscribes to `target`, and that entry
    /// is not its last one (the removal's search skips the last entry, and a
    /// refused removal is a fault here).
    open spec fn can_exit(&self, target: &Option<DiscordTransceiver>) -> bool {
        &&& self is Some
        &&& target is Some
        &&& self.unwrap().subscriptions().contains(target.unwrap().ident())
        &&& self.unwrap().subscriptions().last() != target.unwrap().ident()
    }

    /// `self` stops subscribing to `target`'s id.
    fn exit_com(&mut self, target: &Option<DiscordTransceiver>) -> (r: Result<(), DiscordError>)
        ensures
            r is Ok,
            (*final(self)) is Some,
            final(self).unwrap().ident() == old(self).unwrap().ident(),
            final(self).unwrap().subscriptions() == old(self).unwrap().subscriptions().remove_value(
                target.unwrap().ident(),
            ),
    {
        let target_id = match target {
            Some(t) => t.get_id(),
            None => return Err(DiscordError::AlreadyDeleted),
        };
        match self {
            Some(me) => {
                let _ = me.subscribe_remove(target_id);
                Ok(())
            },
            None => Err(DiscordError::AlreadyDeleted),
        }
    }
}

} // verus!
