//! The plain-value model of a channel message and of what it references.

use vstd::prelude::*;

verus! {

/// An emoji as a reaction or a text token names it: a custom emoji of the
/// platform, known by its identifier, or a unicode emoji, known by its
/// codepoint sequence.
#[derive(Debug, Clone)]
pub enum EmojiRef {
    Custom(u64),
    Unicode(String),
}

/// A file attached to a message.
#[derive(Debug, Clone)]
pub struct Attachment {
    pub id: u64,
    pub filename: String,
    pub url: String,
}

/// A reaction summary: which emoji, and how many users reacted with it.
#[derive(Debug, Clone)]
pub struct Reaction {
    pub emoji: EmojiRef,
    pub count: u64,
}

/// A sticker that a message carries. The image location is absent for
/// sticker formats that have no image.
#[derive(Debug, Clone)]
pub struct StickerItem {
    pub id: u64,
    pub image_url: Option<String>,
}

/// The author of a message, with the location of the avatar that the
/// platform presents for them.
#[derive(Debug, Clone)]
pub struct Author {
    pub id: u64,
    pub face_url: String,
}

/// One message of a channel. Identifiers grow with time: a later message has
/// a larger `id`. `timestamp` is in seconds since the Unix epoch.
#[derive(Debug, Clone)]
pub struct Message {
    pub id: u64,
    pub author: Author,
    pub timestamp: i64,
    pub content: String,
    pub attachments: Vec<Attachment>,
    pub reactions: Vec<Reaction>,
    pub sticker_items: Vec<StickerItem>,
    pub mention_roles: Vec<u64>,
}

} // verus!
