//! The Discord front end, without the network: the data of a received
//! message, and the bindings between transceivers and Discord channels.

use vstd::prelude::*;

use crate::interface::InterfaceError;
use crate::model::data::{
    attachment_items, no_attachments, Attachments, Author, FormattedData, Place, Timestamp,
};
use crate::transceiver::{has_child, TransceiverHandle, Transceivers};
use crate::utils::{decimal, decimal_string};

verus! {

/// What the front end reads from a Discord message.
pub struct DiscordMessage {
    pub content: String,
    pub author_name: String,
    /// The author's nickname where Discord has one.
    pub author_nick: Option<String>,
    pub author_id: u64,
    pub channel_id: u64,
    pub timestamp: Timestamp,
}

/// The data of a Discord message: its text, its author (id in decimal, the
/// place is its channel), no attachments, and its time.
pub fn format_message(msg: DiscordMessage) -> (d: FormattedData)
    ensures
        d.content@ == msg.content@,
        attachment_items(d.attachments) == Seq::<Attachments>::empty(),
        d.author.name@ == msg.author_name@,
        d.author.nickname == msg.author_nick,
        d.author.id@ == decimal(msg.author_id as nat),
        d.author.place == (Place::Discord { channel_id: msg.channel_id }),
        d.timestamp == msg.timestamp,
{
    let id = decimal_string(msg.author_id);
    FormattedData {
        content: msg.content,
        attachments: no_attachments(),
        author: Author {
            name: msg.author_name,
            nickname: msg.author_nick,
            id,
            place: Place::Discord { channel_id: msg.channel_id },
        },
        timestamp: msg.timestamp,
    }
}

/// At most one binding has this channel.
pub open spec fn channel_bound_at_most_once(b: Seq<(u128, u64)>, channel_id: u64) -> bool {
    forall|i: int, j: int|
        0 <= i < b.len() && 0 <= j < b.len() && b[i].1 == channel_id && b[j].1 == channel_id
            ==> i == j
}

/// At most one binding has this transceiver.
pub open spec fn transceiver_bound_at_most_once(b: Seq<(u128, u64)>, tr_id: u128) -> bool {
    forall|i: int, j: int|
        0 <= i < b.len() && 0 <= j < b.len() && b[i].0 == tr_id && b[j].0 == tr_id ==> i == j
}

/// Every transceiver bound to `channel_id` is in the registry `reg`.
pub open spec fn bindings_registered(
    b: Seq<(u128, u64)>,
    reg: Seq<(u128, Seq<u128>)>,
    channel_id: u64,
) -> bool {
    forall|i: int| 0 <= i < b.len() && b[i].1 == channel_id ==> has_child(reg, b[i].0)
}

/// The transceiver bound to `channel_id`, or `NoBoundTransceivers`.
pub fn bound_transceiver(bindings: &Vec<(u128, u64)>, channel_id: u64) -> (r: Result<
    u128,
    InterfaceError,
>)
    requires
        channel_bound_at_most_once(bindings@, channel_id),
    ensures
        r is Ok <==> exists|i: int| 0 <= i < bindings@.len() && bindings@[i].1 == channel_id,
        r matches Ok(t) ==> exists|i: int|
            0 <= i < bindings@.len() && bindings@[i] == (t, channel_id),
        r is Err ==> r == Err::<u128, InterfaceError>(InterfaceError::NoBoundTransceivers),
{
    let mut i: usize = 0;
    while i < bindings.len()
        invariant
            i <= bindings.len(),
            forall|j: int| 0 <= j < i ==> bindings@[j].1 != channel_id,
        decreases bindings.len() - i,
    {
        if bindings[i].1 == channel_id {
            return Ok(bindings[i].0);
        }
        i += 1;
    }
    Err(InterfaceError::NoBoundTransceivers)
}

/// The channel that `tr_id` is bound to, or `NotBound`.
pub fn bound_channel(bindings: &Vec<(u128, u64)>, tr_id: u128) -> (r: Result<u64, InterfaceError>)
    requires
        transceiver_bound_at_most_once(bindings@, tr_id),
    ensures
        r is Ok <==> exists|i: int| 0 <= i < bindings@.len() && bindings@[i].0 == tr_id,
        r matches Ok(c) ==> exists|i: int| 0 <= i < bindings@.len() && bindings@[i] == (tr_id, c),
        r is Err ==> r == Err::<u64, InterfaceError>(InterfaceError::NotBound),
{
    let mut i: usize = 0;
    while i < bindings.len()
        invariant
            i <= bindings.len(),
            forall|j: int| 0 <= j < i ==> bindings@[j].0 != tr_id,
        decreases bindings.len() - i,
    {
        if bindings[i].0 == tr_id {
            return Ok(bindings[i].1);
        }
        i += 1;
    }
    Err(InterfaceError::NotBound)
}

/// The Discord front end's own state: which transceiver is bound to which channel.
pub struct DiscordInterface {
    channel_to_transceiver_bindings: Vec<(u128, u64)>,
}

impl DiscordInterface {
    /// Its bindings, as (transceiver id, channel id).
    pub closed spec fn bindings(&self) -> Seq<(u128, u64)> {
        self.channel_to_transceiver_bindings@
    }

    /// A front end with no bindings yet.
    pub fn new() -> (r: Self)
        ensures
            r.bindings() == Seq::<(u128, u64)>::empty(),
    {
        DiscordInterface { channel_to_transceiver_bindings: Vec::new() }
    }

    /// Whether at most one binding has `channel_id`, which `receive` needs.
    pub fn channel_binding_unique(&self, channel_id: u64) -> (b: bool)
        ensures
            b == channel_bound_at_most_once(self.bindings(), channel_id),
    {
        let b = &self.channel_to_transceiver_bindings;
        let mut first: Option<usize> = None;
        let mut i: usize = 0;
        while i < b.len()
            invariant
                i <= b.len(),
                b@ == self.bindings(),
                first is None ==> forall|j: int| 0 <= j < i ==> b@[j].1 != channel_id,
                first matches Some(f) ==> f < i && b@[f as int].1 == channel_id && forall|j: int|
                    0 <= j < i && b@[j].1 == channel_id ==> j == f,
            decreases b.len() - i,
        {
            if b[i].1 == channel_id {
                if let Some(f) = first {
                    assert(self.bindings()[f as int].1 == channel_id);
                    assert(self.bindings()[i as int].1 == channel_id);
                    assert(!channel_bound_at_most_once(self.bindings(), channel_id));
                    return false;
                }
                first = Some(i);
            }
            i += 1;
        }
        true
    }

    /// Whether at most one binding has `tr_id`, which `send` needs.
    pub fn transceiver_binding_unique(&self, tr_id: u128) -> (b: bool)
        ensures
            b == transceiver_bound_at_most_once(self.bindings(), tr_id),
    {
        let b = &self.channel_to_transceiver_bindings;
        let mut first: Option<usize> = None;
        let mut i: usize = 0;
        while i < b.len()
            invariant
                i <= b.len(),
                b@ == self.bindings(),
                first is None ==> forall|j: int| 0 <= j < i ==> b@[j].0 != tr_id,
                first matches Some(f) ==> f < i && b@[f as int].0 == tr_id && forall|j: int|
                    0 <= j < i && b@[j].0 == tr_id ==> j == f,
            decreases b.len() - i,
        {
            if b[i].0 == tr_id {
                if let Some(f) = first {
                    assert(self.bindings()[f as int].0 == tr_id);
                    assert(self.bindings()[i as int].0 == tr_id);
                    assert(!transceiver_bound_at_most_once(self.bindings(), tr_id));
                    return false;
                }
                first = Some(i);
            }
            i += 1;
        }
        true
    }

    /// Whether every transceiver bound to `channel_id` is in `transceivers`,
    /// which `receive` needs.
    pub fn bound_transceivers_registered(&self, transceivers: &Transceivers, channel_id: u64) -> (b:
        bool)
        ensures
            b == bindings_registered(self.bindings(), transceivers@, channel_id),
    {
        let b = &self.channel_to_transceiver_bindings;
        let mut i: usize = 0;
        while i < b.len()
            invariant
                i <= b.len(),
                b@ == self.bindings(),
                forall|j: int| 0 <= j < i && b@[j].1 == channel_id ==> has_child(transceivers@, b@[j].0),
            decreases b.len() - i,
        {
            if b[i].1 == channel_id && !transceivers.child_exists(b[i].0) {
                assert(self.bindings()[i as int].1 == channel_id);
                assert(!has_child(transceivers@, self.bindings()[i as int].0));
                return false;
            }
            i += 1;
        }
        true
    }

    /// Takes in a Discord message: its data, and a handle to the transceiver
    /// bound to its channel, which must pass it on; `NoBoundTransceivers` when
    /// there is none. A bound transceiver that the registry lacks is a fault,
    /// so every one must be there.
    pub fn receive(&self, transceivers: &Transceivers, receive_data: DiscordMessage) -> (r: Result<
        (TransceiverHandle, FormattedData),
        InterfaceError,
    >)
        requires
            channel_bound_at_most_once(self.bindings(), receive_data.channel_id),
            bindings_registered(self.bindings(), transceivers@, receive_data.channel_id),
        ensures
            r is Ok <==> exists|i: int|
                0 <= i < self.bindings().len() && self.bindings()[i].1 == receive_data.channel_id,
            r matches Ok((h, d)) ==> (exists|i: int|
                0 <= i < self.bindings().len() && self.bindings()[i] == (
                    h@,
                    receive_data.channel_id,
                )) && has_child(transceivers@, h@) && d.content@ == receive_data.content@
                && attachment_items(d.attachments) == Seq::<Attachments>::empty()
                && d.author.name@ == receive_data.author_name@ && d.author.nickname
                == receive_data.author_nick && d.author.id@ == decimal(
                receive_data.author_id as nat,
            ) && d.author.place == (Place::Discord { channel_id: receive_data.channel_id })
                && d.timestamp == receive_data.timestamp,
            r is Err ==> r == Err::<(TransceiverHandle, FormattedData), InterfaceError>(
                InterfaceError::NoBoundTransceivers,
            ),
    {
        let channel_id = receive_data.channel_id;
        let data = format_message(receive_data);
        let target = match bound_transceiver(&self.channel_to_transceiver_bindings, channel_id) {
            Ok(t) => t,
            Err(e) => return Err(e),
        };
        match transceivers.get_child(target) {
            Ok(child) => Ok((child, data)),
            Err(_) => Err(InterfaceError::NoBoundTransceivers),
        }
    }

    /// The channel where what transceiver `tr_id` sends must be posted;
    /// `NotBound` when it is bound to none.
    pub fn send(&self, tr_id: u128) -> (r: Result<u64, InterfaceError>)
        requires
            transceiver_bound_at_most_once(self.bindings(), tr_id),
        ensures
            r is Ok <==> exists|i: int|
                0 <= i < self.bindings().len() && self.bindings()[i].0 == tr_id,
            r matches Ok(c) ==> exists|i: int|
                0 <= i < self.bindings().len() && self.bindings()[i] == (tr_id, c),
            r is Err ==> r == Err::<u64, InterfaceError>(InterfaceError::NotBound),
    {
        bound_channel(&self.channel_to_transceiver_bindings, tr_id)
    }
}

} // verus!
