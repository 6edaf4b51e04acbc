//! The transceiver registry: every transceiver has a unique id and the list
//! of its subscribers, the transceivers it broadcasts to. The registry creates
//! transceivers, looks them up, adds and removes subscriptions, and drops
//! transceivers.

use std::sync::Arc;

use vstd::prelude::*;

verus! {

/// Why a request to the registry was refused.
#[derive(Debug, Clone, Copy, PartialEq, Eq, Structural)]
pub enum TransceiverError {
    /// No transceiver has the id that was asked for.
    NotFound,
    /// No transceiver has the subscriber's id.
    SubscriberNotFound,
    /// No transceiver has the broadcaster's id.
    BroadcasterNotFound,
    /// The subscriber does not subscribe to that broadcaster.
    NotSubscribed,
    /// The transceiver was taken out of the registry, but handles to it are still held.
    StillReferenced,
}

impl TransceiverError {
    /// The message that goes with the error.
    pub fn message(&self) -> (m: &'static str)
        ensures
            m@ == match *self {
                TransceiverError::NotFound => "not found."@,
                TransceiverError::SubscriberNotFound => "not found (from subscriber_id)."@,
                TransceiverError::BroadcasterNotFound => "not found (from broadcaster_id)."@,
                TransceiverError::NotSubscribed => "not found (cannot find subscribing instance)."@,
                TransceiverError::StillReferenced => "could not drop (reference count not zero)."@,
            },
    {
        match self {
            TransceiverError::NotFound => "not found.",
            TransceiverError::SubscriberNotFound => "not found (from subscriber_id).",
            TransceiverError::BroadcasterNotFound => "not found (from broadcaster_id).",
            TransceiverError::NotSubscribed => "not found (cannot find subscribing instance).",
            TransceiverError::StillReferenced => "could not drop (reference count not zero).",
        }
    }
}

/// `x` occurs at most once in `l`.
pub open spec fn at_most_once(l: Seq<u128>, x: u128) -> bool {
    forall|j: int, k: int|
        0 <= j < l.len() && 0 <= k < l.len() && l[j] == x && l[k] == x ==> j == k
}

/// `Arc::clone` of std: one more strong reference to the same value.
#[verifier::external_body]
fn share(a: &Arc<u128>) -> (b: Arc<u128>)
    ensures
        *b == *a,
{
    Arc::clone(a)
}

/// `Arc::strong_count` of std: how many strong references to the value exist.
/// The caller holds one through `a`, so the count is at least 1; how many
/// others exist depends on what the rest of the program holds, which is not stated.
#[verifier::external_body]
fn strong_count(a: &Arc<u128>) -> (n: usize)
    ensures
        n >= 1,
{
    Arc::strong_count(a)
}

/// A transceiver: its id and the ids of the transceivers it broadcasts to.
pub struct Transceiver {
    /// The unique id the registry gave it.
    pub id: u128,
    subscribers: Vec<u128>,
    handle: Arc<u128>,
}

impl Transceiver {
    /// Its id.
    pub closed spec fn ident(&self) -> u128 {
        self.id
    }

    /// Its subscribers: the ids of the transceivers it broadcasts to, in the
    /// order they subscribed.
    pub closed spec fn subscribers(&self) -> Seq<u128> {
        self.subscribers@
    }

    /// Its shared handle carries its own id.
    pub closed spec fn anchored(&self) -> bool {
        *self.handle == self.id
    }

    /// Adds `subscriber_id` to its subscribers, at the end; nothing is checked.
    pub fn add_subscribe(&mut self, subscriber_id: u128)
        ensures
            final(self).ident() == old(self).ident(),
            final(self).anchored() == old(self).anchored(),
            final(self).subscribers() == old(self).subscribers().push(subscriber_id),
    {
        self.subscribers.push(subscriber_id);
    }

    /// Removes `subscriber_id` from its subscribers, or refuses with
    /// `NotSubscribed` when it is not one.
    pub fn remove_subscribe(&mut self, subscriber_id: u128) -> (r: Result<(), TransceiverError>)
        requires
            at_most_once(old(self).subscribers(), subscriber_id),
        ensures
            final(self).ident() == old(self).ident(),
            final(self).anchored() == old(self).anchored(),
            r is Ok <==> old(self).subscribers().contains(subscriber_id),
            r is Ok ==> final(self).subscribers() == old(self).subscribers().remove_value(
                subscriber_id,
            ),
            r is Err ==> r == Err::<(), TransceiverError>(TransceiverError::NotSubscribed)
                && final(self).subscribers() == old(self).subscribers(),
            final(self).subscribers() == old(self).subscribers().remove_value(subscriber_id),
    {
        let mut i: usize = 0;
        while i < self.subscribers.len()
            invariant
                i <= self.subscribers.len(),
                self.id == old(self).id,
                self.handle == old(self).handle,
                self.subscribers@ == old(self).subscribers@,
                at_most_once(old(self).subscribers(), subscriber_id),
                forall|j: int| 0 <= j < i ==> self.subscribers@[j] != subscriber_id,
            decreases self.subscribers.len() - i,
        {
            if self.subscribers[i] == subscriber_id {
                proof {
                    let l = self.subscribers@;
                    l.index_of_first_ensures(subscriber_id);
                }
                self.subscribers.remove(i);
                return Ok(());
            }
            i += 1;
        }
        proof {
            self.subscribers@.index_of_first_ensures(subscriber_id);
        }
        Err(TransceiverError::NotSubscribed)
    }
}

/// A handle to a transceiver of the registry. While a handle is held, dropping
/// that transceiver is answered with `StillReferenced`.
pub struct TransceiverHandle {
    id: u128,
    shared: Arc<u128>,
}

impl View for TransceiverHandle {
    type V = u128;

    closed spec fn view(&self) -> u128 {
        self.id
    }
}

impl TransceiverHandle {
    /// The id of the transceiver it refers to.
    pub fn id(&self) -> (r: u128)
        ensures
            r == self@,
    {
        self.id
    }
}

/// The ids of a registry's transceivers, in order.
pub open spec fn ids_of(s: Seq<(u128, Seq<u128>)>) -> Seq<u128> {
    s.map_values(|c: (u128, Seq<u128>)| c.0)
}

/// The registry holds a transceiver with this id.
pub open spec fn has_child(s: Seq<(u128, Seq<u128>)>, id: u128) -> bool {
    ids_of(s).contains(id)
}

/// No two transceivers share an id.
pub open spec fn distinct_ids(s: Seq<(u128, Seq<u128>)>) -> bool {
    ids_of(s).no_duplicates()
}

/// The position of the transceiver with this id.
pub open spec fn child_index(s: Seq<(u128, Seq<u128>)>, id: u128) -> int {
    ids_of(s).index_of(id)
}

/// The subscribers of the transceiver with this id.
pub open spec fn subscribers_of(s: Seq<(u128, Seq<u128>)>, id: u128) -> Seq<u128> {
    s[child_index(s, id)].1
}

/// The registry after `sub` subscribes to `brc`: `brc`'s subscribers gain `sub`.
pub open spec fn with_subscription(s: Seq<(u128, Seq<u128>)>, sub: u128, brc: u128) -> Seq<
    (u128, Seq<u128>),
> {
    s.update(child_index(s, brc), (brc, subscribers_of(s, brc).push(sub)))
}

/// The registry after `sub` stops subscribing to `brc`: `brc`'s subscribers lose `sub`.
pub open spec fn without_subscription(s: Seq<(u128, Seq<u128>)>, sub: u128, brc: u128) -> Seq<
    (u128, Seq<u128>),
> {
    s.update(child_index(s, brc), (brc, subscribers_of(s, brc).remove_value(sub)))
}

/// The registry after every subscription to `id` is removed.
pub open spec fn forget_everywhere(s: Seq<(u128, Seq<u128>)>, id: u128) -> Seq<(u128, Seq<u128>)> {
    s.map_values(|c: (u128, Seq<u128>)| (c.0, c.1.remove_value(id)))
}

/// The registry after the transceiver `id` is dropped.
pub open spec fn without_child(s: Seq<(u128, Seq<u128>)>, id: u128) -> Seq<(u128, Seq<u128>)> {
    forget_everywhere(s, id).remove(child_index(s, id))
}

/// No subscription list holds `id` twice.
pub open spec fn subscribed_at_most_once(s: Seq<(u128, Seq<u128>)>, id: u128) -> bool {
    forall|i: int| 0 <= i < s.len() ==> at_most_once(#[trigger] s[i].1, id)
}

proof fn lemma_child_index(s: Seq<(u128, Seq<u128>)>, i: int)
    requires
        distinct_ids(s),
        0 <= i < s.len(),
    ensures
        has_child(s, s[i].0),
        child_index(s, s[i].0) == i,
{
    assert(ids_of(s)[i] == s[i].0);
    let j = child_index(s, s[i].0);
    assert(0 <= j < s.len() && ids_of(s)[j] == s[i].0);
}

/// A change asked of the registry.
pub enum RegistryOp {
    /// `new_instance` with this drawn id.
    NewInstance(u128),
    /// `add_subscribe_child` with (subscriber, broadcaster).
    AddSubscribe(u128, u128),
    /// `remove_subscribe_child` with (subscriber, broadcaster).
    RemoveSubscribe(u128, u128),
    /// `drop_child` with this id.
    DropChild(u128),
}

/// The registry after one change; a refused change leaves it as it was.
pub open spec fn step(s: Seq<(u128, Seq<u128>)>, op: RegistryOp) -> Seq<(u128, Seq<u128>)> {
    match op {
        RegistryOp::NewInstance(drawn) => if has_child(s, drawn) {
            s
        } else {
            s.push((drawn, Seq::<u128>::empty()))
        },
        RegistryOp::AddSubscribe(sub, brc) => if has_child(s, sub) && has_child(s, brc) {
            with_subscription(s, sub, brc)
        } else {
            s
        },
        RegistryOp::RemoveSubscribe(sub, brc) => if has_child(s, sub) && has_child(s, brc)
            && subscribers_of(s, brc).contains(sub) {
            without_subscription(s, sub, brc)
        } else {
            s
        },
        RegistryOp::DropChild(id) => if has_child(s, id) {
            without_child(s, id)
        } else {
            s
        },
    }
}

/// The registry after a sequence of changes, made one at a time in order.
pub open spec fn run(s: Seq<(u128, Seq<u128>)>, ops: Seq<RegistryOp>) -> Seq<(u128, Seq<u128>)>
    decreases ops.len(),
{
    if ops.len() == 0 {
        s
    } else {
        step(run(s, ops.drop_last()), ops.last())
    }
}

/// Transceivers as their ids and subscribers.
closed spec fn view_of(children: Seq<Transceiver>) -> Seq<(u128, Seq<u128>)> {
    children.map_values(|c: Transceiver| (c.id, c.subscribers()))
}

/// Every transceiver's handle carries its id.
closed spec fn all_anchored(children: Seq<Transceiver>) -> bool {
    forall|i: int| 0 <= i < children.len() ==> (#[trigger] children[i]).anchored()
}

/// The registry of transceivers.
pub struct Transceivers {
    children: Vec<Transceiver>,
}

impl View for Transceivers {
    type V = Seq<(u128, Seq<u128>)>;

    /// Each transceiver as its id and its subscribers, in the order they were made.
    closed spec fn view(&self) -> Seq<(u128, Seq<u128>)> {
        view_of(self.children@)
    }
}

impl Transceivers {
    #[verifier::type_invariant]
    closed spec fn inv(self) -> bool {
        &&& distinct_ids(self@)
        &&& all_anchored(self.children@)
    }

    /// No two of its transceivers share an id.
    pub fn ids_distinct(&self)
        ensures
            distinct_ids(self@),
    {
        proof {
            use_type_invariant(self);
        }
    }

    /// An empty registry.
    pub fn new() -> (r: Self)
        ensures
            r@ == Seq::<(u128, Seq<u128>)>::empty(),
    {
        let r = Transceivers { children: Vec::new() };
        assert(r@ =~= Seq::<(u128, Seq<u128>)>::empty());
        r
    }

    /// The position of the transceiver with `id`.
    fn position(&self, id: u128) -> (r: Option<usize>)
        ensures
            r matches Some(i) ==> i < self@.len() && self@[i as int].0 == id && i == child_index(
                self@,
                id,
            ),
            r is None ==> !has_child(self@, id),
    {
        proof {
            use_type_invariant(self);
        }
        let mut i: usize = 0;
        while i < self.children.len()
            invariant
                i <= self.children.len(),
                self@.len() == self.children@.len(),
                distinct_ids(self@),
                forall|j: int| 0 <= j < i ==> self@[j].0 != id,
            decreases self.children.len() - i,
        {
            if self.children[i].id == id {
                proof {
                    lemma_child_index(self@, i as int);
                }
                return Some(i);
            }
            i += 1;
        }
        proof {
            if has_child(self@, id) {
                let j = ids_of(self@).index_of(id);
                assert(ids_of(self@)[j] == self@[j].0);
            }
        }
        None
    }

    /// Whether a transceiver with `child_id` exists.
    pub fn child_exists(&self, child_id: u128) -> (b: bool)
        ensures
            b == has_child(self@, child_id),
    {
        let r = self.position(child_id);
        proof {
            if let Some(i) = r {
                assert(ids_of(self@)[i as int] == child_id);
            }
        }
        r.is_some()
    }

    /// The id `drawn` (a random value drawn by the caller) when no
    /// transceiver has it yet; `None` when it is taken, and another must be drawn.
    fn new_id(&self, drawn: u128) -> (r: Option<u128>)
        ensures
            r == if has_child(self@, drawn) {
                None::<u128>
            } else {
                Some(drawn)
            },
    {
        if self.child_exists(drawn) {
            None
        } else {
            Some(drawn)
        }
    }

    /// Makes a transceiver with id `drawn` and no subscribers, and hands out
    /// a handle to it; the caller draws `drawn` at random (a version-4 UUID).
    /// When `drawn` is taken already, nothing changes and the answer is
    /// `None`: the caller draws again, until an id is free.
    pub fn new_instance(&mut self, drawn: u128) -> (r: Option<TransceiverHandle>)
        ensures
            has_child(old(self)@, drawn) ==> r is None && final(self)@ == old(self)@,
            !has_child(old(self)@, drawn) ==> (r matches Some(h) && h@ == drawn && final(self)@
                == old(self)@.push((drawn, Seq::<u128>::empty()))),
            final(self)@ == step(old(self)@, RegistryOp::NewInstance(drawn)),
            distinct_ids(final(self)@),
    {
        proof {
            use_type_invariant(&*self);
        }
        let id = match self.new_id(drawn) {
            Some(id) => id,
            None => return None,
        };
        let handle = Arc::new(id);
        let shared = share(&handle);
        let child = Transceiver { id, subscribers: Vec::new(), handle };
        let mut children: Vec<Transceiver> = Vec::new();
        std::mem::swap(&mut children, &mut self.children);
        proof {
            let old_view = view_of(children@);
            let new_view = view_of(children@.push(child));
            assert(new_view =~= old_view.push((id, Seq::<u128>::empty())));
            assert(ids_of(new_view) =~= ids_of(old_view).push(id));
            assert forall|i: int, j: int|
                0 <= i < ids_of(new_view).len() && 0 <= j < ids_of(new_view).len() && i != j
                    implies ids_of(new_view)[i] != ids_of(new_view)[j] by {
                if i < old_view.len() && j < old_view.len() {
                    assert(ids_of(old_view)[i] == ids_of(new_view)[i]);
                    assert(ids_of(old_view)[j] == ids_of(new_view)[j]);
                } else if i < old_view.len() {
                    assert(ids_of(old_view)[i] == ids_of(new_view)[i]);
                } else if j < old_view.len() {
                    assert(ids_of(old_view)[j] == ids_of(new_view)[j]);
                }
            }
        }
        children.push(child);
        assert(all_anchored(children@)) by {
            assert forall|i: int| 0 <= i < children@.len() implies (#[trigger] children@[i]).anchored() by {
                if i < children@.len() - 1 {
                    assert(children@[i] == old(self).children@[i]);
                }
            }
        }
        self.children = children;
        Some(TransceiverHandle { id, shared })
    }
}


impl Transceivers {
    /// A handle to the transceiver with `child_id`, or `NotFound`.
    pub fn get_child(&self, child_id: u128) -> (r: Result<TransceiverHandle, TransceiverError>)
        ensures
            r is Ok <==> has_child(self@, child_id),
            r matches Ok(h) ==> h@ == child_id,
            r is Err ==> r == Err::<TransceiverHandle, TransceiverError>(TransceiverError::NotFound),
    {
        proof {
            use_type_invariant(self);
        }
        match self.position(child_id) {
            None => Err(TransceiverError::NotFound),
            Some(i) => {
                proof {
                    assert(ids_of(self@)[i as int] == child_id);
                }
                let shared = share(&self.children[i].handle);
                Ok(TransceiverHandle { id: child_id, shared })
            },
        }
    }

    /// Checks both ids: `SubscriberNotFound` when the subscriber is missing,
    /// else `BroadcasterNotFound` when the broadcaster is missing, else the
    /// position of the broadcaster, whose subscribers change.
    fn check_subscriber_and_get_broadcaster(&self, subscriber_id: u128, broadcaster_id: u128) -> (r:
        Result<usize, TransceiverError>)
        ensures
            !has_child(self@, subscriber_id) ==> r == Err::<usize, TransceiverError>(
                TransceiverError::SubscriberNotFound,
            ),
            has_child(self@, subscriber_id) && !has_child(self@, broadcaster_id) ==> r == Err::<
                usize,
                TransceiverError,
            >(TransceiverError::BroadcasterNotFound),
            has_child(self@, subscriber_id) && has_child(self@, broadcaster_id) ==> r is Ok,
            r matches Ok(i) ==> i < self@.len() && i == child_index(self@, broadcaster_id)
                && self@[i as int].0 == broadcaster_id,
    {
        if !self.child_exists(subscriber_id) {
            return Err(TransceiverError::SubscriberNotFound);
        }
        let pos = match self.position(broadcaster_id) {
            Some(i) => i,
            None => return Err(TransceiverError::BroadcasterNotFound),
        };
        proof {
            assert(ids_of(self@)[pos as int] == broadcaster_id);
        }
        Ok(pos)
    }

    /// Makes `subscriber_id` subscribe to `broadcaster_id`: the broadcaster's
    /// subscribers gain it. Both must exist; the subscriber is checked first.
    pub fn add_subscribe_child(&mut self, subscriber_id: u128, broadcaster_id: u128) -> (r: Result<
        (),
        TransceiverError,
    >)
        ensures
            !has_child(old(self)@, subscriber_id) ==> r == Err::<(), TransceiverError>(
                TransceiverError::SubscriberNotFound,
            ),
            has_child(old(self)@, subscriber_id) && !has_child(old(self)@, broadcaster_id) ==> r
                == Err::<(), TransceiverError>(TransceiverError::BroadcasterNotFound),
            r is Err ==> final(self)@ == old(self)@,
            has_child(old(self)@, subscriber_id) && has_child(old(self)@, broadcaster_id) ==> r
                is Ok && final(self)@ == with_subscription(old(self)@, subscriber_id, broadcaster_id),
            final(self)@ == step(old(self)@, RegistryOp::AddSubscribe(subscriber_id, broadcaster_id)),
            distinct_ids(final(self)@),
    {
        proof {
            use_type_invariant(&*self);
        }
        let pos = match self.check_subscriber_and_get_broadcaster(subscriber_id, broadcaster_id) {
            Ok(i) => i,
            Err(e) => return Err(e),
        };
        let mut children: Vec<Transceiver> = Vec::new();
        std::mem::swap(&mut children, &mut self.children);
        let ghost old_children = children@;
        children[pos].add_subscribe(subscriber_id);
        proof {
            let old_view = view_of(old_children);
            let new_view = view_of(children@);
            assert(children@ == old_children.update(pos as int, children@[pos as int]));
            assert(new_view =~= with_subscription(old_view, subscriber_id, broadcaster_id));
            assert(ids_of(new_view) =~= ids_of(old_view));
            assert forall|i: int| 0 <= i < children@.len() implies (#[trigger] children@[i]).anchored() by {
                if i != pos {
                    assert(children@[i] == old_children[i]);
                }
            }
        }
        self.children = children;
        Ok(())
    }

    /// Makes `subscriber_id` stop subscribing to `broadcaster_id`: the
    /// broadcaster's subscribers lose it. Both must exist (the subscriber is
    /// checked first), and the subscription must be there.
    pub fn remove_subscribe_child(&mut self, subscriber_id: u128, broadcaster_id: u128) -> (r:
        Result<(), TransceiverError>)
        requires
            has_child(old(self)@, subscriber_id) && has_child(old(self)@, broadcaster_id)
                ==> at_most_once(subscribers_of(old(self)@, broadcaster_id), subscriber_id),
        ensures
            !has_child(old(self)@, subscriber_id) ==> r == Err::<(), TransceiverError>(
                TransceiverError::SubscriberNotFound,
            ),
            has_child(old(self)@, subscriber_id) && !has_child(old(self)@, broadcaster_id) ==> r
                == Err::<(), TransceiverError>(TransceiverError::BroadcasterNotFound),
            has_child(old(self)@, subscriber_id) && has_child(old(self)@, broadcaster_id)
                && !subscribers_of(old(self)@, broadcaster_id).contains(subscriber_id) ==> r
                == Err::<(), TransceiverError>(TransceiverError::NotSubscribed),
            r is Err ==> final(self)@ == old(self)@,
            has_child(old(self)@, subscriber_id) && has_child(old(self)@, broadcaster_id)
                && subscribers_of(old(self)@, broadcaster_id).contains(subscriber_id) ==> r is Ok
                && final(self)@ == without_subscription(old(self)@, subscriber_id, broadcaster_id),
            final(self)@ == step(
                old(self)@,
                RegistryOp::RemoveSubscribe(subscriber_id, broadcaster_id),
            ),
            distinct_ids(final(self)@),
    {
        proof {
            use_type_invariant(&*self);
        }
        let pos = match self.check_subscriber_and_get_broadcaster(subscriber_id, broadcaster_id) {
            Ok(i) => i,
            Err(e) => return Err(e),
        };
        let mut children: Vec<Transceiver> = Vec::new();
        std::mem::swap(&mut children, &mut self.children);
        let ghost old_children = children@;
        let res = children[pos].remove_subscribe(subscriber_id);
        proof {
            let old_view = view_of(old_children);
            let new_view = view_of(children@);
            assert(children@ == old_children.update(pos as int, children@[pos as int]));
            assert(ids_of(new_view) =~= ids_of(old_view));
            if res is Ok {
                assert(new_view =~= without_subscription(old_view, subscriber_id, broadcaster_id));
            } else {
                assert(new_view =~= old_view);
            }
            assert forall|i: int| 0 <= i < children@.len() implies (#[trigger] children@[i]).anchored() by {
                if i != pos {
                    assert(children@[i] == old_children[i]);
                }
            }
        }
        self.children = children;
        res
    }

    /// Drops the transceiver `child_id`: every subscription to it is removed,
    /// then its entry. `NotFound` when there is none; otherwise the answer is
    /// `drop_verdict` of the number of strong references left to it.
    pub fn drop_child(&mut self, child_id: u128) -> (r: Result<(), TransceiverError>)
        requires
            has_child(old(self)@, child_id) ==> subscribed_at_most_once(old(self)@, child_id),
        ensures
            !has_child(old(self)@, child_id) ==> r == Err::<(), TransceiverError>(
                TransceiverError::NotFound,
            ) && final(self)@ == old(self)@,
            has_child(old(self)@, child_id) ==> final(self)@ == without_child(old(self)@, child_id)
                && (r is Ok || r == Err::<(), TransceiverError>(TransceiverError::StillReferenced)),
            final(self)@ == step(old(self)@, RegistryOp::DropChild(child_id)),
            distinct_ids(final(self)@),
    {
        proof {
            use_type_invariant(&*self);
        }
        let pos = match self.position(child_id) {
            Some(i) => i,
            None => return Err(TransceiverError::NotFound),
        };
        proof {
            assert(ids_of(self@)[pos as int] == child_id);
        }
        let mut children: Vec<Transceiver> = Vec::new();
        std::mem::swap(&mut children, &mut self.children);
        let ghost old_children = children@;
        let ghost old_view = view_of(old_children);
        let n = children.len();
        let mut i: usize = 0;
        while i < n
            invariant
                n == children@.len(),
                n == old_children.len(),
                i <= n,
                pos < n,
                old_view == view_of(old_children),
                subscribed_at_most_once(old_view, child_id),
                all_anchored(old_children),
                forall|j: int| 0 <= j < n ==> (#[trigger] children@[j]).ident() == old_children[j].ident(),
                forall|j: int| 0 <= j < n ==> (#[trigger] children@[j]).anchored(),
                forall|j: int|
                    0 <= j < i ==> (#[trigger] children@[j]).subscribers()
                        == old_children[j].subscribers().remove_value(child_id),
                forall|j: int| i <= j < n ==> #[trigger] children@[j] == old_children[j],
            decreases n - i,
        {
            proof {
                assert(old_view[i as int].1 == old_children[i as int].subscribers());
                assert(at_most_once(old_view[i as int].1, child_id));
            }
            let ghost before = children@;
            let _ = children[i].remove_subscribe(child_id);
            proof {
                assert forall|j: int| 0 <= j < n && j != i implies children@[j] == before[j] by {}
            }
            i += 1;
        }
        proof {
            assert(view_of(children@) =~= forget_everywhere(old_view, child_id));
        }
        let ghost cleaned = children@;
        let removed = children.remove(pos);
        proof {
            let new_view = view_of(children@);
            assert(new_view =~= without_child(old_view, child_id));
            assert(ids_of(new_view) =~= ids_of(old_view).remove(pos as int));
            assert forall|a: int, b: int|
                0 <= a < ids_of(new_view).len() && 0 <= b < ids_of(new_view).len() && a != b
                    implies ids_of(new_view)[a] != ids_of(new_view)[b] by {
                let oa = if a < pos { a } else { a + 1 };
                let ob = if b < pos { b } else { b + 1 };
                assert(ids_of(new_view)[a] == ids_of(old_view)[oa]);
                assert(ids_of(new_view)[b] == ids_of(old_view)[ob]);
            }
            assert forall|j: int| 0 <= j < children@.len() implies (#[trigger] children@[j]).anchored() by {
                if j >= pos {
                    assert(children@[j] == cleaned[j + 1]);
                }
            }
        }
        self.children = children;
        let count = strong_count(&removed.handle);
        drop_verdict(count)
    }
}

/// The answer to a drop once the dropped transceiver's entry is gone, from
/// the number of strong references that are left to it: `Ok` when only the
/// one being dropped is left, `StillReferenced` when others still hold it.
pub fn drop_verdict(strong_count: usize) -> (r: Result<(), TransceiverError>)
    requires
        strong_count >= 1,
    ensures
        r == if strong_count == 1 {
            Ok::<(), TransceiverError>(())
        } else {
            Err::<(), TransceiverError>(TransceiverError::StillReferenced)
        },
{
    if strong_count == 1 {
        Ok(())
    } else {
        Err(TransceiverError::StillReferenced)
    }
}

/// Removing the first occurrence of a value that occurs at most once leaves none.
proof fn lemma_remove_value_gone(l: Seq<u128>, x: u128)
    requires
        at_most_once(l, x),
    ensures
        !l.remove_value(x).contains(x),
        forall|y: u128| y != x ==> (l.remove_value(x).contains(y) <==> l.contains(y)),
{
    l.index_of_first_ensures(x);
    if l.contains(x) {
        let p = l.index_of_first(x).unwrap();
        let r = l.remove(p);
        assert(r =~= l.subrange(0, p) + l.subrange(p + 1, l.len() as int));
        if r.contains(x) {
            let k = r.index_of(x);
            if k < p {
                assert(l[k] == x);
            } else {
                assert(l[k + 1] == x);
            }
        }
        assert forall|y: u128| y != x implies (r.contains(y) <==> l.contains(y)) by {
            if l.contains(y) {
                let k = l.index_of(y);
                if k < p {
                    assert(r[k] == y);
                } else {
                    assert(k != p);
                    assert(r[k - 1] == y);
                }
            }
            if r.contains(y) {
                let k = r.index_of(y);
                if k < p {
                    assert(l[k] == y);
                } else {
                    assert(l[k + 1] == y);
                }
            }
        }
    }
}

/// A transceiver that was just made (`new_instance` appends it under an
/// unused id) can be found under its id, has no subscribers, every earlier
/// transceiver is still there, and ids stay distinct.
pub proof fn law_new_instance_is_found(s: Seq<(u128, Seq<u128>)>, id: u128)
    requires
        distinct_ids(s),
        !has_child(s, id),
    ensures
        has_child(s.push((id, Seq::<u128>::empty())), id),
        subscribers_of(s.push((id, Seq::<u128>::empty())), id) == Seq::<u128>::empty(),
        distinct_ids(s.push((id, Seq::<u128>::empty()))),
        forall|x: u128| has_child(s, x) ==> has_child(s.push((id, Seq::<u128>::empty())), x),
{
    let t = s.push((id, Seq::<u128>::empty()));
    assert(ids_of(t) =~= ids_of(s).push(id));
    assert forall|i: int, j: int|
        0 <= i < ids_of(t).len() && 0 <= j < ids_of(t).len() && i != j implies ids_of(t)[i]
        != ids_of(t)[j] by {
        if i < s.len() {
            assert(ids_of(s)[i] == ids_of(t)[i]);
        }
        if j < s.len() {
            assert(ids_of(s)[j] == ids_of(t)[j]);
        }
    }
    lemma_child_index(t, s.len() as int);
    assert forall|x: u128| has_child(s, x) implies has_child(t, x) by {
        let k = ids_of(s).index_of(x);
        assert(ids_of(t)[k] == x);
    }
}

/// Subscribing `sub` to `brc` and then unsubscribing the same pair gives back
/// the registry one started from, when `sub` was not a subscriber of `brc`
/// before; after the subscription the removal is allowed (the entry occurs
/// once) and succeeds (both still exist and the entry is there).
pub proof fn law_subscribe_then_unsubscribe(s: Seq<(u128, Seq<u128>)>, sub: u128, brc: u128)
    requires
        distinct_ids(s),
        has_child(s, sub),
        has_child(s, brc),
        !subscribers_of(s, brc).contains(sub),
    ensures
        distinct_ids(with_subscription(s, sub, brc)),
        has_child(with_subscription(s, sub, brc), sub),
        has_child(with_subscription(s, sub, brc), brc),
        subscribers_of(with_subscription(s, sub, brc), brc).contains(sub),
        at_most_once(subscribers_of(with_subscription(s, sub, brc), brc), sub),
        without_subscription(with_subscription(s, sub, brc), sub, brc) == s,
{
    let i = child_index(s, brc);
    lemma_child_index(s, i);
    assert(0 <= i < s.len() && ids_of(s)[i] == brc);
    let l = subscribers_of(s, brc);
    let t = with_subscription(s, sub, brc);
    assert(ids_of(t) =~= ids_of(s));
    lemma_child_index(t, i);
    assert(subscribers_of(t, brc) == l.push(sub));
    assert(l.push(sub)[l.len() as int] == sub);
    assert forall|j: int, k: int|
        0 <= j < l.push(sub).len() && 0 <= k < l.push(sub).len() && l.push(sub)[j] == sub
            && l.push(sub)[k] == sub implies j == k by {
        if j < l.len() {
            assert(l[j] == sub);
        }
        if k < l.len() {
            assert(l[k] == sub);
        }
    }
    let k = ids_of(s).index_of(sub);
    assert(ids_of(t)[k] == sub);
    l.push(sub).index_of_first_ensures(sub);
    let p = l.push(sub).index_of_first(sub).unwrap();
    if p < l.len() {
        assert(l[p] == sub);
    }
    assert(l.push(sub).remove_value(sub) =~= l);
    assert(without_subscription(t, sub, brc) =~= s);
}

/// A subscription changes only the broadcaster's list: `brc`'s subscribers
/// gain `sub` at the end, every other transceiver keeps its list, and the set
/// of transceivers does not change.
pub proof fn law_subscription_touches_only_broadcaster(
    s: Seq<(u128, Seq<u128>)>,
    sub: u128,
    brc: u128,
    other: u128,
)
    requires
        distinct_ids(s),
        has_child(s, brc),
    ensures
        ids_of(with_subscription(s, sub, brc)) == ids_of(s),
        distinct_ids(with_subscription(s, sub, brc)),
        has_child(with_subscription(s, sub, brc), other) == has_child(s, other),
        subscribers_of(with_subscription(s, sub, brc), brc) == subscribers_of(s, brc).push(sub),
        has_child(s, other) && other != brc ==> subscribers_of(with_subscription(s, sub, brc), other)
            == subscribers_of(s, other),
{
    let i = child_index(s, brc);
    lemma_child_index(s, i);
    let t = with_subscription(s, sub, brc);
    assert(ids_of(t) =~= ids_of(s));
    lemma_child_index(t, i);
    if has_child(s, other) && other != brc {
        let k = child_index(s, other);
        lemma_child_index(s, k);
        lemma_child_index(t, k);
    }
}

/// Every change the registry makes keeps ids distinct: a new transceiver
/// under an unused id, a subscription added or removed, a transceiver
/// dropped. Since the empty registry has distinct ids, so has every registry
/// reached by any sequence of these changes.
pub proof fn law_every_change_keeps_ids_distinct(
    s: Seq<(u128, Seq<u128>)>,
    fresh: u128,
    sub: u128,
    brc: u128,
    dropped: u128,
)
    requires
        distinct_ids(s),
    ensures
        distinct_ids(Seq::<(u128, Seq<u128>)>::empty()),
        !has_child(s, fresh) ==> distinct_ids(s.push((fresh, Seq::<u128>::empty()))),
        has_child(s, brc) ==> distinct_ids(with_subscription(s, sub, brc)),
        has_child(s, brc) ==> distinct_ids(without_subscription(s, sub, brc)),
        has_child(s, dropped) ==> distinct_ids(without_child(s, dropped)),
{
    assert(ids_of(Seq::<(u128, Seq<u128>)>::empty()) =~= Seq::<u128>::empty());
    if !has_child(s, fresh) {
        law_new_instance_is_found(s, fresh);
    }
    if has_child(s, brc) {
        law_subscription_touches_only_broadcaster(s, sub, brc, brc);
        let i = child_index(s, brc);
        lemma_child_index(s, i);
        assert(ids_of(without_subscription(s, sub, brc)) =~= ids_of(s));
    }
    if has_child(s, dropped) {
        let p = child_index(s, dropped);
        lemma_child_index(s, p);
        let w = without_child(s, dropped);
        assert(ids_of(forget_everywhere(s, dropped)) =~= ids_of(s));
        assert(ids_of(w) =~= ids_of(s).remove(p));
        assert forall|a: int, b: int|
            0 <= a < ids_of(w).len() && 0 <= b < ids_of(w).len() && a != b implies ids_of(w)[a]
            != ids_of(w)[b] by {
            let oa = if a < p { a } else { a + 1 };
            let ob = if b < p { b } else { b + 1 };
            assert(ids_of(w)[a] == ids_of(s)[oa]);
            assert(ids_of(w)[b] == ids_of(s)[ob]);
        }
    }
}

/// Removing the one occurrence of `x` from `l` deletes exactly that entry:
/// what stands before and after it stays, in order; without `x`, nothing changes.
proof fn lemma_remove_value_shape(l: Seq<u128>, x: u128)
    requires
        at_most_once(l, x),
    ensures
        l.contains(x) ==> exists|p: int|
            0 <= p < l.len() && l[p] == x && l.remove_value(x) == l.take(p) + l.skip(p + 1),
        !l.contains(x) ==> l.remove_value(x) == l,
{
    l.index_of_first_ensures(x);
    if l.contains(x) {
        let p = l.index_of_first(x).unwrap();
        assert(l.remove(p) =~= l.take(p) + l.skip(p + 1));
    }
}

/// Removing subscriber `sub` from broadcaster `brc` (where `sub` is on the
/// list once) deletes exactly that entry of `brc`'s list: `sub` is gone, every
/// other subscriber stays, in the same order, and every other transceiver's
/// list and the set of transceivers stay as they were. This holds wherever
/// `sub` stands in the list.
pub proof fn law_unsubscribe_removes_only_that_subscriber(
    s: Seq<(u128, Seq<u128>)>,
    sub: u128,
    brc: u128,
)
    requires
        distinct_ids(s),
        has_child(s, brc),
        at_most_once(subscribers_of(s, brc), sub),
        subscribers_of(s, brc).contains(sub),
    ensures
        ids_of(without_subscription(s, sub, brc)) == ids_of(s),
        exists|p: int|
            0 <= p < subscribers_of(s, brc).len() && subscribers_of(s, brc)[p] == sub
                && subscribers_of(without_subscription(s, sub, brc), brc) == subscribers_of(
                s,
                brc,
            ).take(p) + subscribers_of(s, brc).skip(p + 1),
        subscribers_of(without_subscription(s, sub, brc), brc).len() + 1 == subscribers_of(
            s,
            brc,
        ).len(),
        !subscribers_of(without_subscription(s, sub, brc), brc).contains(sub),
        forall|x: u128|
            x != sub ==> (subscribers_of(without_subscription(s, sub, brc), brc).contains(x)
                <==> subscribers_of(s, brc).contains(x)),
        forall|y: u128|
            has_child(s, y) && y != brc ==> subscribers_of(without_subscription(s, sub, brc), y)
                == subscribers_of(s, y),
{
    let i = child_index(s, brc);
    lemma_child_index(s, i);
    let l = subscribers_of(s, brc);
    let w = without_subscription(s, sub, brc);
    assert(ids_of(w) =~= ids_of(s));
    lemma_child_index(w, i);
    assert(subscribers_of(w, brc) == l.remove_value(sub));
    lemma_remove_value_gone(l, sub);
    lemma_remove_value_shape(l, sub);
    assert forall|y: u128| has_child(s, y) && y != brc implies subscribers_of(w, y)
        == subscribers_of(s, y) by {
        let k = child_index(s, y);
        lemma_child_index(s, k);
        lemma_child_index(w, k);
    }
}

/// Dropping `id` takes `id`, and nothing else, out of every surviving
/// transceiver's list: each keeps every other subscriber, in the same order
/// (only the one entry `id` is deleted where it stood), and a list without
/// `id` stays exactly as it was.
pub proof fn law_drop_keeps_other_subscriptions(s: Seq<(u128, Seq<u128>)>, id: u128)
    requires
        distinct_ids(s),
        has_child(s, id),
        subscribed_at_most_once(s, id),
    ensures
        forall|y: u128|
            has_child(s, y) && y != id ==> {
                &&& has_child(without_child(s, id), y)
                &&& !subscribers_of(without_child(s, id), y).contains(id)
                &&& forall|x: u128|
                    x != id ==> (subscribers_of(without_child(s, id), y).contains(x)
                        <==> subscribers_of(s, y).contains(x))
                &&& !subscribers_of(s, y).contains(id) ==> subscribers_of(without_child(s, id), y)
                    == subscribers_of(s, y)
                &&& subscribers_of(s, y).contains(id) ==> exists|p: int|
                    0 <= p < subscribers_of(s, y).len() && subscribers_of(s, y)[p] == id
                        && subscribers_of(without_child(s, id), y) == subscribers_of(s, y).take(p)
                        + subscribers_of(s, y).skip(p + 1)
            },
{
    law_drop_forgets(s, id);
    let p = child_index(s, id);
    lemma_child_index(s, p);
    let f = forget_everywhere(s, id);
    let w = without_child(s, id);
    assert forall|y: u128| has_child(s, y) && y != id implies {
        &&& has_child(w, y)
        &&& !subscribers_of(w, y).contains(id)
        &&& forall|x: u128|
            x != id ==> (subscribers_of(w, y).contains(x) <==> subscribers_of(s, y).contains(x))
        &&& !subscribers_of(s, y).contains(id) ==> subscribers_of(w, y) == subscribers_of(s, y)
        &&& subscribers_of(s, y).contains(id) ==> exists|q: int|
            0 <= q < subscribers_of(s, y).len() && subscribers_of(s, y)[q] == id
                && subscribers_of(w, y) == subscribers_of(s, y).take(q) + subscribers_of(
                s,
                y,
            ).skip(q + 1)
    } by {
        let k = child_index(s, y);
        lemma_child_index(s, k);
        assert(k != p);
        let nk = if k < p { k } else { k - 1 };
        assert(w[nk] == f[k]);
        assert(w[nk].0 == y);
        lemma_child_index(w, nk);
        let l = subscribers_of(s, y);
        assert(at_most_once(s[k].1, id));
        assert(subscribers_of(w, y) == l.remove_value(id));
        lemma_remove_value_gone(l, id);
        lemma_remove_value_shape(l, id);
    }
}

/// Any sequence of changes, made one at a time from the empty registry
/// (`new`), leaves every transceiver with an id of its own.
pub proof fn law_any_sequence_keeps_ids_distinct(ops: Seq<RegistryOp>)
    ensures
        distinct_ids(run(Seq::<(u128, Seq<u128>)>::empty(), ops)),
    decreases ops.len(),
{
    let e = Seq::<(u128, Seq<u128>)>::empty();
    if ops.len() == 0 {
        assert(ids_of(e) =~= Seq::<u128>::empty());
    } else {
        law_any_sequence_keeps_ids_distinct(ops.drop_last());
        let s = run(e, ops.drop_last());
        match ops.last() {
            RegistryOp::NewInstance(d) => {
                law_every_change_keeps_ids_distinct(s, d, d, d, d);
            },
            RegistryOp::AddSubscribe(sub, brc) => {
                law_every_change_keeps_ids_distinct(s, sub, sub, brc, brc);
            },
            RegistryOp::RemoveSubscribe(sub, brc) => {
                law_every_change_keeps_ids_distinct(s, sub, sub, brc, brc);
            },
            RegistryOp::DropChild(id) => {
                law_every_change_keeps_ids_distinct(s, id, id, id, id);
            },
        }
    }
}

/// Dropping the same transceiver twice, one call after the other: the
/// second call finds no such transceiver, so it is answered `NotFound` and
/// changes nothing; the transceiver is taken out exactly once.
pub proof fn law_second_drop_is_not_found(s: Seq<(u128, Seq<u128>)>, id: u128)
    requires
        distinct_ids(s),
        has_child(s, id),
        subscribed_at_most_once(s, id),
    ensures
        !has_child(step(s, RegistryOp::DropChild(id)), id),
        step(step(s, RegistryOp::DropChild(id)), RegistryOp::DropChild(id)) == step(
            s,
            RegistryOp::DropChild(id),
        ),
{
    law_drop_forgets(s, id);
}

/// After `drop_child` takes the transceiver `id` out, no transceiver has
/// that id and no subscription list holds it; every other transceiver stays,
/// and ids stay distinct.
pub proof fn law_drop_forgets(s: Seq<(u128, Seq<u128>)>, id: u128)
    requires
        distinct_ids(s),
        has_child(s, id),
        subscribed_at_most_once(s, id),
    ensures
        !has_child(without_child(s, id), id),
        forall|i: int|
            0 <= i < without_child(s, id).len() ==> !(#[trigger] without_child(s, id)[i]).1.contains(
                id,
            ),
        forall|x: u128| x != id ==> (has_child(without_child(s, id), x) <==> has_child(s, x)),
        distinct_ids(without_child(s, id)),
{
    let p = child_index(s, id);
    lemma_child_index(s, p);
    assert(0 <= p < s.len() && ids_of(s)[p] == id);
    let f = forget_everywhere(s, id);
    let w = without_child(s, id);
    assert(ids_of(f) =~= ids_of(s));
    assert(ids_of(w) =~= ids_of(s).remove(p));
    assert forall|a: int, b: int|
        0 <= a < ids_of(w).len() && 0 <= b < ids_of(w).len() && a != b implies ids_of(w)[a]
        != ids_of(w)[b] by {
        let oa = if a < p { a } else { a + 1 };
        let ob = if b < p { b } else { b + 1 };
        assert(ids_of(w)[a] == ids_of(s)[oa]);
        assert(ids_of(w)[b] == ids_of(s)[ob]);
    }
    if has_child(w, id) {
        let k = ids_of(w).index_of(id);
        let ok = if k < p { k } else { k + 1 };
        assert(ids_of(w)[k] == ids_of(s)[ok]);
    }
    assert forall|i: int| 0 <= i < w.len() implies !(#[trigger] w[i]).1.contains(id) by {
        let oi = if i < p { i } else { i + 1 };
        assert(w[i] == f[oi]);
        assert(at_most_once(s[oi].1, id));
        lemma_remove_value_gone(s[oi].1, id);
    }
    assert forall|x: u128| x != id implies (has_child(w, x) <==> has_child(s, x)) by {
        if has_child(s, x) {
            let k = ids_of(s).index_of(x);
            assert(k != p);
            let nk = if k < p { k } else { k - 1 };
            assert(ids_of(w)[nk] == x);
        }
        if has_child(w, x) {
            let k = ids_of(w).index_of(x);
            let ok = if k < p { k } else { k + 1 };
            assert(ids_of(w)[k] == ids_of(s)[ok]);
        }
    }
}

} // verus!
