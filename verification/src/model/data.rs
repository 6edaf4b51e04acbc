//! The data that the current front ends exchange, and the text each piece is shown as.

use std::path::Path;

use smallvec::SmallVec;
use vstd::prelude::*;

use crate::utils::{decimal, push_decimal};

verus! {

/// A point in time: `secs` seconds and `nanos` nanoseconds after
/// 1970-01-01 00:00:00 UTC (nanoseconds above one second mark a leap second).
#[derive(Debug, Clone, Copy, PartialEq, Eq, Structural)]
pub struct Timestamp {
    pub secs: i64,
    pub nanos: u32,
}

/// The attachments of a message, held in smallvec's `SmallVec` with room for
/// four inline; `attachment_items` names what it holds.
#[verifier::external_body]
#[derive(Debug)]
pub struct AttachmentList {
    items: SmallVec<[Attachments; 4]>,
}

impl AttachmentList {
    /// An empty list.
    pub fn empty() -> (r: Self)
        ensures
            attachment_items(r) == Seq::<Attachments>::empty(),
    {
        no_attachments()
    }
}

impl Clone for AttachmentList {
    /// `Clone` of smallvec's `SmallVec`, whose source builds a new list from
    /// the old one's items, each cloned. Nothing is stated of the copy.
    #[verifier::external_body]
    fn clone(&self) -> (r: Self) {
        AttachmentList { items: self.items.clone() }
    }
}

#[verifier::external_type_specification]
#[verifier::external_body]
pub struct ExPath(Path);

#[verifier::external_type_specification]
#[verifier::external_body]
pub struct ExSerenityError(serenity::prelude::SerenityError);

/// A message as the current front ends format it.
#[derive(Debug, Clone)]
pub struct FormattedData {
    pub content: String,
    pub attachments: AttachmentList,
    pub author: Author,
    pub timestamp: Timestamp,
}

/// A file attached to a message, with the path of a local copy when there is one.
#[derive(Debug, Clone)]
pub struct Attachments {
    pub a_type: AttachmentType,
    pub url: String,
    pub data: Option<Box<Path>>,
}

/// The kind of an attachment.
#[derive(Debug, Clone, Copy, PartialEq, Eq, Structural)]
pub enum AttachmentType {
    Image,
    Audio,
    Movie,
    Other,
}

/// Who wrote a message.
#[derive(Debug, Clone)]
pub struct Author {
    pub name: String,
    pub nickname: Option<String>,
    pub id: String,
    pub place: Place,
}

/// Where a message was written.
#[derive(Debug, Clone, Copy, PartialEq, Eq, Structural)]
pub enum Place {
    Discord { channel_id: u64 },
    Twitter,
    Mastodon,
    Unknown,
}

/// A transport protocol.
#[derive(Debug, Clone, Copy, PartialEq, Eq, Structural)]
pub enum Protocol {
    Http,
    WebSocket,
}

/// What an attachment list holds, in order.
pub uninterp spec fn attachment_items(v: AttachmentList) -> Seq<Attachments>;

/// `SmallVec::new` of smallvec: an empty list.
#[verifier::external_body]
pub(crate) fn no_attachments() -> (v: AttachmentList)
    ensures
        attachment_items(v) == Seq::<Attachments>::empty(),
{
    AttachmentList { items: SmallVec::new() }
}

/// The text that `Display` of chrono's `DateTime<Utc>` writes for the time
/// `secs`/`nanos`, or `None` where `DateTime::from_timestamp` has no such time.
pub uninterp spec fn utc_display(secs: i64, nanos: u32) -> Option<Seq<char>>;

/// chrono's `DateTime::from_timestamp`, written with its `Display`
/// (`to_string`). The text is the name `utc_display`; nothing more of it is
/// stated (it is `YYYY-MM-DD HH:MM:SS[.fraction] UTC`, as chrono formats it).
#[verifier::external_body]
fn utc_text(secs: i64, nanos: u32) -> (r: Option<String>)
    ensures
        r is Some <==> utc_display(secs, nanos) is Some,
        r matches Some(t) ==> utc_display(secs, nanos) == Some(t@),
{
    match chrono::DateTime::from_timestamp(secs, nanos) {
        Some(d) => Some(d.to_string()),
        None => None,
    }
}

/// The text `{:?}` gives a place.
pub open spec fn place_text(p: Place) -> Seq<char> {
    match p {
        Place::Discord { channel_id } => "Discord { channel_id: "@ + decimal(channel_id as nat)
            + " }"@,
        Place::Twitter => "Twitter"@,
        Place::Mastodon => "Mastodon"@,
        Place::Unknown => "Unknown"@,
    }
}

/// The text of an author: `name: id on Place`, or `nickname (name): id on Place`.
pub open spec fn author_text(a: Author) -> Seq<char> {
    match a.nickname {
        None => a.name@ + ": "@ + a.id@ + " on "@ + place_text(a.place),
        Some(nick) => nick@ + " ("@ + a.name@ + "): "@ + a.id@ + " on "@ + place_text(a.place),
    }
}

/// The text of a message: its author's text, its content, `at ` and its time.
pub open spec fn message_text(d: FormattedData, time: Seq<char>) -> Seq<char> {
    author_text(d.author) + d.content@ + "at "@ + time
}

impl Place {
    /// The text `{:?}` gives this place.
    pub fn debug_text(&self) -> (r: String)
        ensures
            r@ == place_text(*self),
    {
        match self {
            Place::Discord { channel_id } => {
                let mut s = String::from_str("Discord { channel_id: ");
                push_decimal(&mut s, *channel_id);
                s.append(" }");
                s
            },
            Place::Twitter => String::from_str("Twitter"),
            Place::Mastodon => String::from_str("Mastodon"),
            Place::Unknown => String::from_str("Unknown"),
        }
    }
}

impl Author {
    /// The text that shows this author.
    pub fn render(&self) -> (r: String)
        ensures
            r@ == author_text(*self),
    {
        let place = self.place.debug_text();
        match &self.nickname {
            None => {
                let mut s = String::from_str(self.name.as_str());
                s.append(": ");
                s.append(self.id.as_str());
                s.append(" on ");
                s.append(place.as_str());
                s
            },
            Some(nick) => {
                let mut s = String::from_str(nick.as_str());
                s.append(" (");
                s.append(self.name.as_str());
                s.append("): ");
                s.append(self.id.as_str());
                s.append(" on ");
                s.append(place.as_str());
                s
            },
        }
    }
}

impl FormattedData {
    /// The text that shows this message, or `None` when its time has no UTC
    /// date (outside the range chrono covers).
    pub fn render(&self) -> (r: Option<String>)
        ensures
            r is Some <==> utc_display(self.timestamp.secs, self.timestamp.nanos) is Some,
            r matches Some(t) ==> t@ == message_text(
                *self,
                utc_display(self.timestamp.secs, self.timestamp.nanos).unwrap(),
            ),
            r matches Some(t) ==> t@ == author_text(self.author) + self.content@ + "at "@
                + utc_display(self.timestamp.secs, self.timestamp.nanos).unwrap(),
    {
        match utc_text(self.timestamp.secs, self.timestamp.nanos) {
            None => None,
            Some(time) => {
                let mut s = self.author.render();
                s.append(self.content.as_str());
                s.append("at ");
                s.append(time.as_str());
                Some(s)
            },
        }
    }
}

/// Every message, whether its author has a nickname or not, is shown as its
/// author's full text (what `Author::render` gives), then its content, then
/// `at ` and its time: the text begins with the author's text, and what
/// follows it is the content and the time.
pub proof fn law_message_text_is_author_text_then_content(d: FormattedData, time: Seq<char>)
    ensures
        message_text(d, time) == author_text(d.author) + d.content@ + "at "@ + time,
        message_text(d, time).take(author_text(d.author).len() as int) == author_text(d.author),
        message_text(d, time).skip(author_text(d.author).len() as int) == d.content@ + "at "@
            + time,
{
    let a = author_text(d.author);
    let rest = d.content@ + "at "@ + time;
    assert(message_text(d, time) =~= a + rest);
    assert((a + rest).take(a.len() as int) =~= a);
    assert((a + rest).skip(a.len() as int) =~= rest);
}

/// Every author's text ends with `: `, the author's id, ` on ` and the text
/// of the place; before that stands the name alone, or the nickname followed
/// by the name in brackets.
pub proof fn law_author_text_shape(a: Author)
    ensures
        author_text(a) == (match a.nickname {
            None => a.name@,
            Some(n) => n@ + " ("@ + a.name@ + ")"@,
        }) + ": "@ + a.id@ + " on "@ + place_text(a.place),
        author_text(a).skip(author_text(a).len() - (": "@ + a.id@ + " on "@ + place_text(
            a.place,
        )).len()) == ": "@ + a.id@ + " on "@ + place_text(a.place),
{
    reveal_strlit("): ");
    reveal_strlit(")");
    reveal_strlit(": ");
    let tail = ": "@ + a.id@ + " on "@ + place_text(a.place);
    match a.nickname {
        None => {
            assert(author_text(a) =~= a.name@ + tail);
            assert((a.name@ + tail).skip(a.name@.len() as int) =~= tail);
        },
        Some(n) => {
            let head = n@ + " ("@ + a.name@ + ")"@;
            assert("): "@ =~= ")"@ + ": "@);
            assert(author_text(a) =~= head + tail);
            assert((head + tail).skip(head.len() as int) =~= tail);
        },
    }
}

} // verus!
