//! The registry of Discord receivers, each in a slot that can be emptied.

use std::sync::Arc;

use vstd::prelude::*;

use crate::discord::transferer::Transferer;
use crate::discord::DiscordError;

verus! {

/// A Discord receiver.
pub struct DiscordReceiver {
    id: u128,
}

impl DiscordReceiver {
    /// Its id.
    pub closed spec fn ident(&self) -> u128 {
        self.id
    }

    /// Its id.
    pub fn id(&self) -> (r: u128)
        ensures
            r == self.ident(),
    {
        self.id
    }
}

/// The receivers, each in a slot (`None` once emptied).
pub struct DiscordReceivers {
    receivers: Vec<Option<DiscordReceiver>>,
    transferer: Arc<Transferer>,
}

impl DiscordReceivers {
    /// The ids of the slots, `None` for an emptied slot.
    pub closed spec fn slots(&self) -> Seq<Option<u128>> {
        self.receivers@.map_values(
            |s: Option<DiscordReceiver>|
                match s {
                    Some(x) => Some(x.id),
                    None => None,
                },
        )
    }

    /// The transferer it uses.
    pub closed spec fn transferer(&self) -> Transferer {
        *self.transferer
    }

    /// An empty registry that uses `transferer`.
    pub fn new(transferer: Arc<Transferer>) -> (r: Self)
        ensures
            r.slots() == Seq::<Option<u128>>::empty(),
            r.transferer() == *transferer,
    {
        let r = DiscordReceivers { receivers: Vec::new(), transferer };
        assert(r.slots() =~= Seq::<Option<u128>>::empty());
        r
    }

    /// The slot of the receiver `id`. The search reads every slot, and an
    /// emptied one makes it panic; the size check that follows admits only an
    /// empty list of matches (its pattern is the range `0..1`), so a match
    /// makes it panic too. Every slot must be filled and none may have `id`;
    /// the answer is then `NotRegistered`.
    pub fn get(&self, id: u128) -> (r: Result<&Option<DiscordReceiver>, DiscordError>)
        requires
            forall|i: int|
                0 <= i < self.slots().len() ==> (#[trigger] self.slots()[i]) is Some
                    && self.slots()[i] != Some(id),
        ensures
            r == Err::<&Option<DiscordReceiver>, DiscordError>(DiscordError::NotRegistered),
    {
        let mut found: Vec<usize> = Vec::new();
        let mut i: usize = 0;
        while i < self.receivers.len()
            invariant
                i <= self.receivers.len(),
                found@.len() == 0,
                forall|j: int|
                    0 <= j < self.slots().len() ==> (#[trigger] self.slots()[j]) is Some
                        && self.slots()[j] != Some(id),
            decreases self.receivers.len() - i,
        {
            proof {
                assert(self.slots()[i as int] is Some);
            }
            match &self.receivers[i] {
                Some(x) => {
                    if x.id == id {
                        found.push(i);
                    }
                },
                None => {},
            }
            i += 1;
        }
        if found.len() == 0 {
            Err(DiscordError::NotRegistered)
        } else {
            Ok(&self.receivers[found[0]])
        }
    }
}

} // verus!
