//! The registry of Discord senders, each in a slot that can be emptied.

use std::sync::Arc;

use vstd::prelude::*;

use crate::discord::transferer::Transferer;
use crate::discord::DiscordError;

verus! {

/// A Discord sender.
pub struct DiscordSender {
    id: u128,
}

impl DiscordSender {
    /// Its id.
    pub closed spec fn ident(&self) -> u128 {
        self.id
    }

    /// Its id.
    pub fn id(&self) -> (r: u128)
        ensures
            r == self.ident(),
    {
        self.id
    }
}

/// The senders, each in a slot (`None` once emptied).
pub struct DiscordSenders {
    senders: Vec<Option<DiscordSender>>,
    transferer: Arc<Transferer>,
}

impl DiscordSenders {
    /// The ids of the slots, `None` for an emptied slot.
    pub closed spec fn slots(&self) -> Seq<Option<u128>> {
        self.senders@.map_values(
            |s: Option<DiscordSender>|
                match s {
                    Some(x) => Some(x.id),
                    None => None,
                },
        )
    }

    /// The transferer it uses.
    pub closed spec fn transferer(&self) -> Transferer {
        *self.transferer
    }

    /// An empty registry that uses `transferer`.
    pub fn new(transferer: Arc<Transferer>) -> (r: Self)
        ensures
            r.slots() == Seq::<Option<u128>>::empty(),
            r.transferer() == *transferer,
    {
        let r = DiscordSenders { senders: Vec::new(), transferer };
        assert(r.slots() =~= Seq::<Option<u128>>::empty());
        r
    }

    /// The slot of the sender `id`. The search reads every slot, and an
    /// emptied one makes it panic; the size check that follows admits only an
    /// empty list of matches (its pattern is the range `0..1`), so a match
    /// makes it panic too. Every slot must be filled and none may have `id`;
    /// the answer is then `NotRegistered`.
    pub fn get(&self, id: u128) -> (r: Result<&Option<DiscordSender>, DiscordError>)
        requires
            forall|i: int|
                0 <= i < self.slots().len() ==> (#[trigger] self.slots()[i]) is Some
                    && self.slots()[i] != Some(id),
        ensures
            r == Err::<&Option<DiscordSender>, DiscordError>(DiscordError::NotRegistered),
    {
        let mut found: Vec<usize> = Vec::new();
        let mut i: usize = 0;
        while i < self.senders.len()
            invariant
                i <= self.senders.len(),
                found@.len() == 0,
                forall|j: int|
                    0 <= j < self.slots().len() ==> (#[trigger] self.slots()[j]) is Some
                        && self.slots()[j] != Some(id),
            decreases self.senders.len() - i,
        {
            proof {
                assert(self.slots()[i as int] is Some);
            }
            match &self.senders[i] {
                Some(x) => {
                    if x.id == id {
                        found.push(i);
                    }
                },
                None => {},
            }
            i += 1;
        }
        if found.len() == 0 {
            Err(DiscordError::NotRegistered)
        } else {
            Ok(&self.senders[found[0]])
        }
    }
}

} // verus!
