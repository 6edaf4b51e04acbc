//! The arguments of the transceiver commands, with ids as their 128-bit values.

use vstd::prelude::*;

verus! {

/// A parsed transceiver command.
#[derive(Debug, Clone)]
pub enum CommandArgs {
    /// Make a transceiver.
    New,
    /// Drop the transceiver `id`.
    Drop { id: u128 },
    /// Make `subscriber_id` receive what `broadcaster_id` sends.
    Subsc { broadcaster_id: u128, subscriber_id: u128 },
    /// Make `subscriber_id` stop receiving what `broadcaster_id` sends.
    Exit { broadcaster_id: u128, subscriber_id: u128 },
}

/// Which registry an id that the transferer knows belongs to.
#[derive(Debug, Clone, Copy, PartialEq, Eq, Structural)]
pub enum Target {
    Sender,
    Receiver,
    Transceiver,
}

} // verus!
