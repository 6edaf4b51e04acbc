//! The data that flows between the front ends: a message, its author, where
//! it came from and what is attached to it.

pub mod arg;
pub mod data;

use vstd::prelude::*;

use crate::model::data::Timestamp;

verus! {

/// A message as the first front end formatted it.
#[derive(Debug, Clone)]
pub struct FormattedData {
    pub content: String,
    pub attachments: Vec<Attachments>,
    pub author: Author,
    pub additional_contents: Option<Vec<AdditionalContent>>,
    pub timestamp: Timestamp,
}

/// A file attached to a message, with its bytes when they were fetched.
#[derive(Debug, Clone)]
pub struct Attachments {
    pub a_type: AttachmentType,
    pub url: String,
    pub binary: Option<Vec<u8>>,
}

/// The kind of an attachment.
#[derive(Debug, Clone, Copy, PartialEq, Eq, Structural)]
pub enum AttachmentType {
    Image,
    Audio,
    Movie,
    Other,
}

/// Who wrote a message.
#[derive(Debug, Clone)]
pub struct Author {
    pub name: String,
    pub nickname: Option<String>,
    pub id: String,
    pub place: Place,
}

/// Extra information a front end can attach to a message.
#[derive(Debug, Clone, Copy, PartialEq, Eq, Structural)]
pub enum AdditionalContent {
    DiscordPlaceInfo,
}

/// The front end a message came from.
#[derive(Debug, Clone, Copy, PartialEq, Eq, Structural)]
pub enum Place {
    Discord,
    Twitter,
    Mastodon,
    Unknown,
}

/// An error of a front end's library.
#[derive(Debug)]
pub enum Error {
    Serenity(serenity::prelude::SerenityError),
}

} // verus!
