//! The first transceiver design: each transceiver keeps the ids it
//! subscribes to, and the registry keeps every transceiver in a slot that a
//! drop command empties. The channels through which a transceiver and its
//! registry signal each other are held beside these values, by the caller.

use std::sync::Arc;

use vstd::prelude::*;

use crate::discord::transferer::Transferer;
use crate::discord::DiscordError;

verus! {

/// A registry of transceivers held in slots (`None` once a slot is emptied).
pub trait Transceivers: Sized {
    type Child: Transceiver;

    /// The ids of the slots, `None` for an emptied slot.
    spec fn slots(&self) -> Seq<Option<u128>>;

    /// The ids of all slots.
    fn get_children(&self) -> (r: Vec<Option<u128>>)
        ensures
            r@ == self.slots(),
    ;

    /// An empty registry that uses `transferer`.
    fn new(transferer: Arc<Transferer>) -> (r: Self)
        ensures
            r.slots() == Seq::<Option<u128>>::empty(),
    ;

    /// The slot of the transceiver `id`.
    fn get_child(&self, id: u128) -> (r: Result<&Option<Self::Child>, DiscordError>)
        requires
            forall|i: int|
                0 <= i < self.slots().len() ==> (#[trigger] self.slots()[i]) is Some
                    && self.slots()[i] != Some(id),
        ensures
            r matches Err(e) ==> e == DiscordError::NotRegistered,
            r is Err,
    ;

    /// Makes a transceiver with the id `new_id` gives for `drawn` (a random
    /// value drawn by the caller) in a new slot, and gives the slot's position.
    fn new_child(&mut self, drawn: u128) -> (r: usize)
        ensures
            r == old(self).slots().len(),
            final(self).slots() == old(self).slots().push(Some(drawn)),
    ;

    /// The position of the first filled slot that holds `id`, whose
    /// transceiver must then go through its drop handshake.
    fn on_child_drop(&self, id: u128) -> (r: usize)
        requires
            self.slots().contains(Some(id)),
        ensures
            r < self.slots().len(),
            self.slots()[r as int] == Some(id),
            forall|j: int| 0 <= j < r ==> self.slots()[j] != Some(id),
    ;

    /// A new transceiver id, from `drawn`, a random value drawn by the caller.
    fn new_id(&self, drawn: u128) -> (id: u128);
}

/// A transceiver that subscribes to broadcasters by id.
pub trait Transceiver: Sized {
    /// Its id.
    spec fn ident(&self) -> u128;

    /// The ids it subscribes to, in order.
    spec fn subscriptions(&self) -> Seq<u128>;

    /// Its id.
    fn get_id(&self) -> (r: u128)
        ensures
            r == self.ident(),
    ;

    /// Whether it subscribes to `id`.
    fn contain_subscribe_id(&self, id: u128) -> (b: bool)
        ensures
            b == self.subscriptions().contains(id),
    ;

    /// Subscribes to `id`, or refuses with `AlreadyExists` when it does already.
    fn subscribe_push(&mut self, id: u128) -> (r: Result<(), DiscordError>)
        ensures
            final(self).ident() == old(self).ident(),
            old(self).subscriptions().contains(id) ==> r == Err::<(), DiscordError>(
                DiscordError::AlreadyExists,
            ) && final(self).subscriptions() == old(self).subscriptions(),
            !old(self).subscriptions().contains(id) ==> r is Ok && final(self).subscriptions()
                == old(self).subscriptions().push(id),
    ;

    /// Stops subscribing to `id`, or refuses with `NotFound` when it does not.
    /// The search for its position skips the last entry and panics when it
    /// finds none, so `id` must not be the last entry.
    fn subscribe_remove(&mut self, id: u128) -> (r: Result<(), DiscordError>)
        requires
            old(self).subscriptions().len() == 0 || old(self).subscriptions().last() != id,
        ensures
            final(self).ident() == old(self).ident(),
            !old(self).subscriptions().contains(id) ==> r == Err::<(), DiscordError>(
                DiscordError::NotFound,
            ) && final(self).subscriptions() == old(self).subscriptions(),
            old(self).subscriptions().contains(id) ==> r is Ok && final(self).subscriptions()
                == old(self).subscriptions().remove_value(id),
    ;
}

/// What a transceiver and its registry tell each other about a drop.
#[derive(Debug, Clone, Copy, PartialEq, Eq, Structural)]
pub enum Signal {
    /// The transceiver asks to be dropped; the id names the request.
    Drop(u128),
    /// The registry confirms the request with that id.
    DropSuccess(u128),
}

/// Where a transceiver's drop handshake stands.
#[derive(Debug, Clone, Copy, PartialEq, Eq, Structural)]
pub enum DropProgress {
    /// No answer yet: wait for the next one.
    Waiting,
    /// The registry confirmed the drop.
    Finished,
}

/// One step of the drop handshake: the transceiver sent `Drop(signal_id)` and
/// `reply` is what its channel gave back (`None` when nothing came). Any
/// answer but `DropSuccess(signal_id)` is a fault that stops the program, so
/// it is left out.
pub fn drop_reply_step(signal_id: u128, reply: Option<Signal>) -> (p: DropProgress)
    requires
        reply matches Some(s) ==> s == Signal::DropSuccess(signal_id),
    ensures
        p == if reply is Some {
            DropProgress::Finished
        } else {
            DropProgress::Waiting
        },
{
    match reply {
        None => DropProgress::Waiting,
        Some(_) => DropProgress::Finished,
    }
}

/// A transceiver of the first design. It never subscribes to an id twice.
pub struct DiscordTransceiver {
    id: u128,
    subscribing: Vec<u128>,
}

impl DiscordTransceiver {
    #[verifier::type_invariant]
    closed spec fn inv(self) -> bool {
        self.subscribing@.no_duplicates()
    }

    /// A transceiver with id `id` and no subscriptions.
    fn with_id(id: u128) -> (r: Self)
        ensures
            r.ident() == id,
            r.subscriptions() == Seq::<u128>::empty(),
    {
        DiscordTransceiver { id, subscribing: Vec::new() }
    }

    fn position_of(&self, id: u128) -> (r: Option<usize>)
        ensures
            r matches Some(i) ==> i < self.subscriptions().len() && self.subscriptions()[i as int]
                == id,
            r is None <==> !self.subscriptions().contains(id),
    {
        let mut i: usize = 0;
        while i < self.subscribing.len()
            invariant
                i <= self.subscribing.len(),
                forall|j: int| 0 <= j < i ==> self.subscribing@[j] != id,
            decreases self.subscribing.len() - i,
        {
            if self.subscribing[i] == id {
                return Some(i);
            }
            i += 1;
        }
        None
    }
}

impl Transceiver for DiscordTransceiver {
    closed spec fn ident(&self) -> u128 {
        self.id
    }

    closed spec fn subscriptions(&self) -> Seq<u128> {
        self.subscribing@
    }

    fn get_id(&self) -> (r: u128) {
        self.id
    }

    fn contain_subscribe_id(&self, id: u128) -> (b: bool)
        ensures
            self.subscriptions().no_duplicates(),
    {
        proof {
            use_type_invariant(self);
        }
        self.position_of(id).is_some()
    }

    /// It never subscribes to an id twice.
    fn subscribe_push(&mut self, id: u128) -> (r: Result<(), DiscordError>)
        ensures
            final(self).subscriptions().no_duplicates(),
    {
        proof {
            use_type_invariant(&*self);
        }
        if self.contain_subscribe_id(id) {
            return Err(DiscordError::AlreadyExists);
        }
        let mut list: Vec<u128> = Vec::new();
        std::mem::swap(&mut list, &mut self.subscribing);
        list.push(id);
        proof {
            assert forall|a: int, b: int| 0 <= a < b < list@.len() implies list@[a] != list@[b] by {
                if b == list@.len() - 1 {
                    assert(old(self).subscribing@[a] == list@[a]);
                }
            }
        }
        self.subscribing = list;
        Ok(())
    }

    fn subscribe_remove(&mut self, id: u128) -> (r: Result<(), DiscordError>)
        ensures
            final(self).subscriptions().no_duplicates(),
    {
        proof {
            use_type_invariant(&*self);
        }
        if !self.contain_subscribe_id(id) {
            return Err(DiscordError::NotFound);
        }
        let n = self.subscribing.len();
        let mut index: Option<usize> = None;
        let mut i: usize = 0;
        while i < n - 1
            invariant
                n == self.subscribing@.len(),
                n >= 1,
                i <= n - 1,
                self.subscribing@.no_duplicates(),
                index matches Some(k) ==> k < i && self.subscribing@[k as int] == id,
                index is None ==> forall|j: int| 0 <= j < i ==> self.subscribing@[j] != id,
            decreases n - 1 - i,
        {
            if self.subscribing[i] == id {
                index = Some(i);
            }
            i += 1;
        }
        let k = match index {
            Some(k) => k,
            None => {
                proof {
                    let p = self.subscribing@.index_of(id);
                    assert(self.subscribing@[p] == id);
                }
                return Err(DiscordError::NotFound);
            },
        };
        proof {
            let l = self.subscribing@;
            l.index_of_first_ensures(id);
            let f = l.index_of_first(id).unwrap();
            assert(l[f] == id);
        }
        let mut list: Vec<u128> = Vec::new();
        std::mem::swap(&mut list, &mut self.subscribing);
        let ghost before = list@;
        list.remove(k);
        proof {
            assert forall|a: int, b: int| 0 <= a < b < list@.len() implies list@[a] != list@[b] by {
                let oa = if a < k { a } else { a + 1 };
                let ob = if b < k { b } else { b + 1 };
                assert(list@[a] == before[oa]);
                assert(list@[b] == before[ob]);
            }
        }
        self.subscribing = list;
        Ok(())
    }
}

/// The registry of the first design.
pub struct DiscordTransceivers {
    children: Vec<Option<DiscordTransceiver>>,
    transferer: Arc<Transferer>,
}

/// The id in a transceiver slot, `None` for an emptied slot.
pub open spec fn slot_id(s: Option<DiscordTransceiver>) -> Option<u128> {
    match s {
        Some(t) => Some(t.ident()),
        None => None,
    }
}

/// The ids of transceiver slots.
pub open spec fn slot_ids(children: Seq<Option<DiscordTransceiver>>) -> Seq<Option<u128>> {
    children.map_values(|s: Option<DiscordTransceiver>| slot_id(s))
}

impl DiscordTransceivers {
    /// Its slots with the transceivers in them, in order.
    pub closed spec fn children(&self) -> Seq<Option<DiscordTransceiver>> {
        self.children@
    }

    /// The ids of its slots are those of its children.
    pub proof fn lemma_slots_of_children(&self)
        ensures
            self.slots() == slot_ids(self.children()),
    {
    }

    /// The transferer it uses.
    pub closed spec fn transferer(&self) -> Transferer {
        *self.transferer
    }

    /// The slot at `position`, through which a command reads or empties the
    /// transceiver; it stands for the shared handle the slot is.
    pub fn slot(&mut self, position: usize) -> (r: &mut Option<DiscordTransceiver>)
        requires
            position < old(self).slots().len(),
        ensures
            *r == old(self).children()[position as int],
            final(self).children() == old(self).children().update(position as int, *final(r)),
            slot_id(*r) == old(self).slots()[position as int],
            final(self).slots() == old(self).slots().update(position as int, slot_id(*final(r))),
            final(self).transferer() == old(self).transferer(),
    {
        &mut self.children[position]
    }
}

impl Transceivers for DiscordTransceivers {
    type Child = DiscordTransceiver;

    closed spec fn slots(&self) -> Seq<Option<u128>> {
        slot_ids(self.children@)
    }

    fn get_children(&self) -> (r: Vec<Option<u128>>) {
        let mut r: Vec<Option<u128>> = Vec::new();
        let mut i: usize = 0;
        while i < self.children.len()
            invariant
                i <= self.children.len(),
                r@ == self.slots().subrange(0, i as int),
            decreases self.children.len() - i,
        {
            let id = match &self.children[i] {
                Some(t) => Some(t.get_id()),
                None => None,
            };
            r.push(id);
            proof {
                assert(r@ =~= self.slots().subrange(0, i + 1));
            }
            i += 1;
        }
        proof {
            assert(r@ =~= self.slots());
        }
        r
    }

    /// The registry keeps `transferer`.
    fn new(transferer: Arc<Transferer>) -> (r: Self)
        ensures
            r.transferer() == *transferer,
    {
        let r = DiscordTransceivers { children: Vec::new(), transferer };
        assert(r.slots() =~= Seq::<Option<u128>>::empty());
        r
    }

    fn get_child(&self, id: u128) -> (r: Result<&Option<DiscordTransceiver>, DiscordError>) {
        let mut found: Vec<usize> = Vec::new();
        let mut i: usize = 0;
        while i < self.children.len()
            invariant
                i <= self.children.len(),
                found@.len() == 0,
                forall|j: int|
                    0 <= j < self.slots().len() ==> (#[trigger] self.slots()[j]) is Some
                        && self.slots()[j] != Some(id),
            decreases self.children.len() - i,
        {
            proof {
                assert(self.slots()[i as int] is Some);
            }
            match &self.children[i] {
                Some(t) => {
                    if t.get_id() == id {
                        found.push(i);
                    }
                },
                None => {},
            }
            i += 1;
        }
        if found.len() == 0 {
            Err(DiscordError::NotRegistered)
        } else {
            Ok(&self.children[found[0]])
        }
    }

    /// The new transceiver has no subscriptions; the other slots stay as they were.
    fn new_child(&mut self, drawn: u128) -> (r: usize)
        ensures
            final(self).children().len() == old(self).children().len() + 1,
            final(self).children().subrange(0, r as int) == old(self).children(),
            final(self).children()[r as int] matches Some(t) && t.ident() == drawn
                && t.subscriptions() == Seq::<u128>::empty(),
            final(self).transferer() == old(self).transferer(),
    {
        let id = self.new_id(drawn);
        let child = DiscordTransceiver::with_id(id);
        let r = self.children.len();
        self.children.push(Some(child));
        proof {
            assert(self.slots() =~= old(self).slots().push(Some(drawn)));
            assert(self.children@.subrange(0, r as int) =~= old(self).children@);
        }
        r
    }

    fn on_child_drop(&self, id: u128) -> (r: usize) {
        let mut i: usize = 0;
        while i < self.children.len()
            invariant
                i <= self.children.len(),
                self.slots().contains(Some(id)),
                forall|j: int| 0 <= j < i ==> self.slots()[j] != Some(id),
            decreases self.children.len() - i,
        {
            let hit = match &self.children[i] {
                Some(t) => t.get_id() == id,
                None => false,
            };
            if hit {
                return i;
            }
            i += 1;
        }
        proof {
            let k = self.slots().index_of(Some(id));
            assert(self.slots()[k] == Some(id));
        }
        0
    }

    /// The id is the first draw, as it is. The check against the other
    /// transceivers' ids that follows the draw never rejects it (its
    /// `continue` only skips to the next id compared), so no draw is repeated.
    fn new_id(&self, drawn: u128) -> (id: u128)
        ensures
            id == drawn,
    {
        drawn
    }
}

} // verus!
