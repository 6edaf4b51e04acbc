//! The front ends. Each one turns what its service sends into the crate's
//! data and finds where data must go.

pub mod discord;

use vstd::prelude::*;

verus! {

/// A front end as the transferring side sees it: it takes in what the
/// outside sends (`receive`) and takes what must go out (`send`).
pub trait Interface {
    type ReceiveData;
    type SendData;

    fn receive(&self, receive_data: Self::ReceiveData) -> Result<(), InterfaceError>;

    fn send(&self, send_data: Self::SendData) -> Result<(), InterfaceError>;
}

/// Why a front end refused a message.
#[derive(Debug, Clone, Copy, PartialEq, Eq, Structural)]
pub enum InterfaceError {
    /// No transceiver is bound to the channel a message came from.
    NoBoundTransceivers,
    /// The transceiver is bound to no channel.
    NotBound,
}

impl InterfaceError {
    /// The message that goes with the error.
    pub fn message(&self) -> (m: &'static str)
        ensures
            m@ == match *self {
                InterfaceError::NoBoundTransceivers => "no bound transceivers."@,
                InterfaceError::NotBound => "not found (transceiver id was not bound to discord channel_id)."@,
            },
    {
        match self {
            InterfaceError::NoBoundTransceivers => "no bound transceivers.",
            InterfaceError::NotBound => "not found (transceiver id was not bound to discord channel_id).",
        }
    }
}

} // verus!
