//! Asset identities and the strategy by which each kind of asset is
//! resolved: where it is fetched from, and under which path, relative to
//! the root of the archive, it is stored.

use vstd::prelude::*;
use vstd::string::StrSliceExecFns;
use vstd::string::StringExecFns;
use crate::extension::{extension_outcome, get_extension_from_url, url_path, ResolveError};
use crate::message::{Attachment, Author, EmojiRef, StickerItem};
use crate::text::{decimal_digits, push_decimal};

verus! {

/// The logical identity of an asset. Two assets with equal keys hold the
/// same bytes within one run.
#[derive(Debug, Clone)]
pub enum AssetKey {
    Avatar(u64),
    CustomEmoji(u64),
    UnicodeEmoji(String),
    Sticker(u64),
}

/// An asset key as a mathematical value.
pub enum AssetKeyView {
    Avatar(u64),
    CustomEmoji(u64),
    UnicodeEmoji(Seq<char>),
    Sticker(u64),
}

impl View for AssetKey {
    type V = AssetKeyView;

    open spec fn view(&self) -> AssetKeyView {
        match self {
            AssetKey::Avatar(id) => AssetKeyView::Avatar(*id),
            AssetKey::CustomEmoji(id) => AssetKeyView::CustomEmoji(*id),
            AssetKey::UnicodeEmoji(emoji) => AssetKeyView::UnicodeEmoji(emoji@),
            AssetKey::Sticker(id) => AssetKeyView::Sticker(*id),
        }
    }
}

impl AssetKey {
    /// Whether two keys name the same asset.
    pub fn same(&self, other: &AssetKey) -> (equal: bool)
        ensures
            equal == (self@ == other@),
    {
        match (self, other) {
            (AssetKey::Avatar(a), AssetKey::Avatar(b)) => *a == *b,
            (AssetKey::CustomEmoji(a), AssetKey::CustomEmoji(b)) => *a == *b,
            (AssetKey::UnicodeEmoji(a), AssetKey::UnicodeEmoji(b)) => *a == *b,
            (AssetKey::Sticker(a), AssetKey::Sticker(b)) => *a == *b,
            _ => false,
        }
    }

    /// A copy of the key.
    pub fn duplicate(&self) -> (copy: AssetKey)
        ensures
            copy@ == self@,
    {
        match self {
            AssetKey::Avatar(id) => AssetKey::Avatar(*id),
            AssetKey::CustomEmoji(id) => AssetKey::CustomEmoji(*id),
            AssetKey::UnicodeEmoji(emoji) => AssetKey::UnicodeEmoji(emoji.clone()),
            AssetKey::Sticker(id) => AssetKey::Sticker(*id),
        }
    }

    /// The key of the asset that shows an emoji.
    pub fn of_emoji(emoji: &EmojiRef) -> (key: AssetKey)
        ensures
            key@ == emoji_key(*emoji),
    {
        match emoji {
            EmojiRef::Custom(id) => AssetKey::CustomEmoji(*id),
            EmojiRef::Unicode(text) => AssetKey::UnicodeEmoji(text.clone()),
        }
    }
}

/// The key of the asset that shows an emoji.
pub open spec fn emoji_key(emoji: EmojiRef) -> AssetKeyView {
    match emoji {
        EmojiRef::Custom(id) => AssetKeyView::CustomEmoji(id),
        EmojiRef::Unicode(text) => AssetKeyView::UnicodeEmoji(text@),
    }
}

/// Where the bytes of an asset come from.
#[derive(Debug, Clone)]
pub enum AssetSource {
    /// Downloaded from this location.
    Remote(String),
    /// The bundled glyph image of this emoji.
    Glyph(String),
    /// The bundled image that stands for an emoji without a glyph.
    Placeholder,
}

/// How to obtain an asset: its source, and the path under which it is
/// stored, relative to the root of the archive.
#[derive(Debug, Clone)]
pub struct AssetPlan {
    pub path: String,
    pub source: AssetSource,
}

impl AssetPlan {
    /// The plan downloads from `url` and stores under `path`.
    pub open spec fn fetches(&self, url: Seq<char>, path: Seq<char>) -> bool {
        &&& self.path@ == path
        &&& self.source matches AssetSource::Remote(from) && from@ == url
    }
}

/// `plan` is the download from `url` to the path that `outcome` gives, or
/// the error that `outcome` gives.
pub open spec fn download_is(
    plan: Result<AssetPlan, ResolveError>,
    url: Seq<char>,
    outcome: Result<Seq<char>, ResolveError>,
) -> bool {
    match outcome {
        Ok(path) => plan matches Ok(made) && made.fetches(url, path),
        Err(error) => plan matches Err(given) && given == error,
    }
}

/// The directory of the archive that holds the assets, with its separator.
pub open spec fn assets_prefix() -> Seq<char> {
    "assets/"@
}

/// The path of the asset file `stem.ext`.
pub open spec fn asset_path(stem: Seq<char>, ext: Seq<char>) -> Seq<char> {
    assets_prefix() + stem + "."@ + ext
}

/// The location from which the platform serves a custom emoji.
pub open spec fn custom_emoji_url(id: u64) -> Seq<char> {
    "https://cdn.discordapp.com/emojis/"@ + decimal_digits(id as nat) + ".png"@
}

/// The path that stands for a unicode emoji without a bundled glyph.
pub open spec fn placeholder_path() -> Seq<char> {
    asset_path("broken_emoji"@, "png"@)
}

/// The path of an attachment: its identifier, an underscore and its
/// file name.
pub open spec fn attachment_path(id: u64, filename: Seq<char>) -> Seq<char> {
    assets_prefix() + decimal_digits(id as nat) + "_"@ + filename
}

fn path_for(stem: &str, ext: &str) -> (path: String)
    ensures
        path@ == asset_path(stem@, ext@),
{
    let mut path = String::from_str("assets/");
    path.append(stem);
    path.append(".");
    path.append(ext);
    path
}

fn numbered_path(id: u64, ext: &str) -> (path: String)
    ensures
        path@ == asset_path(decimal_digits(id as nat), ext@),
{
    let mut path = String::from_str("assets/");
    push_decimal(&mut path, id);
    path.append(".");
    path.append(ext);
    path
}

/// What resolving a download whose location has the parsed path `parsed`
/// gives: the file is named by `id` and by the extension of the path.
pub open spec fn download_outcome(id: u64, parsed: Option<Seq<char>>) -> Result<
    Seq<char>,
    ResolveError,
> {
    match extension_outcome(parsed) {
        Ok(ext) => Ok(asset_path(decimal_digits(id as nat), ext)),
        Err(error) => Err(error),
    }
}

/// `plan` is what resolving the avatar of `user` leads to.
pub open spec fn avatar_plan_is(plan: Result<AssetPlan, ResolveError>, user: Author) -> bool {
    download_is(plan, user.face_url@, download_outcome(user.id, url_path(user.face_url@)))
}

/// `plan` is what resolving `sticker` leads to.
pub open spec fn sticker_plan_is(plan: Result<AssetPlan, ResolveError>, sticker: StickerItem) -> bool {
    match sticker.image_url {
        None => plan matches Err(given) && given == ResolveError::MissingStickerUrl,
        Some(url) => download_is(plan, url@, download_outcome(sticker.id, url_path(url@))),
    }
}

/// The plan for a file named by `id` and fetched from `url`.
fn download_plan(id: u64, url: &str) -> (plan: Result<AssetPlan, ResolveError>)
    ensures
        download_is(plan, url@, download_outcome(id, url_path(url@))),
{
    match get_extension_from_url(url) {
        Ok(ext) => Ok(
            AssetPlan {
                path: numbered_path(id, ext.as_str()),
                source: AssetSource::Remote(String::from_str(url)),
            },
        ),
        Err(error) => Err(error),
    }
}

/// The plan for a user's avatar: fetched from the location that the
/// platform presents for the user, stored under the user's identifier with
/// the extension that the location names.
pub fn avatar_plan(user: &Author) -> (plan: Result<AssetPlan, ResolveError>)
    ensures
        avatar_plan_is(plan, *user),
{
    download_plan(user.id, user.face_url.as_str())
}

/// The plan for a sticker: `MissingStickerUrl` where it has no image
/// location; else fetched from there and stored under the sticker's
/// identifier with the extension that the location names.
pub fn sticker_plan(sticker: &StickerItem) -> (plan: Result<AssetPlan, ResolveError>)
    ensures
        sticker_plan_is(plan, *sticker),
{
    match &sticker.image_url {
        None => Err(ResolveError::MissingStickerUrl),
        Some(url) => download_plan(sticker.id, url.as_str()),
    }
}

/// The plan for a custom emoji: fetched from the platform's location for
/// its identifier, stored under the identifier as a PNG image.
pub fn custom_emoji_plan(id: u64) -> (plan: AssetPlan)
    ensures
        plan.fetches(custom_emoji_url(id), asset_path(decimal_digits(id as nat), "png"@)),
{
    let mut url = String::from_str("https://cdn.discordapp.com/emojis/");
    push_decimal(&mut url, id);
    url.append(".png");
    AssetPlan { path: numbered_path(id, "png"), source: AssetSource::Remote(url) }
}

/// The plan for an attachment: fetched from its location, stored under its
/// identifier and file name. Attachments are fetched each time
/// they are met; no cache holds them.
pub fn attachment_plan(attachment: &Attachment) -> (plan: AssetPlan)
    ensures
        plan.fetches(attachment.url@, attachment_path(attachment.id, attachment.filename@)),
{
    let mut path = String::from_str("assets/");
    push_decimal(&mut path, attachment.id);
    path.append("_");
    path.append(attachment.filename.as_str());
    AssetPlan { path, source: AssetSource::Remote(attachment.url.clone()) }
}

/// The bundled glyph image of a unicode emoji, given by its codepoint
/// sequence: nothing where the table holds none, else the label of the
/// glyph, which may be absent.
pub uninterp spec fn bundled_glyph(emoji: Seq<char>) -> Option<Option<Seq<char>>>;

/// A glyph lookup result as a mathematical value.
pub open spec fn glyph_view(found: Option<Option<String>>) -> Option<Option<Seq<char>>> {
    match found {
        None => None,
        Some(None) => Some(None),
        Some(Some(label)) => Some(Some(label@)),
    }
}

/// Looks `emoji` up in the bundled glyph table with
/// `twemoji_assets::png::PngTwemojiAsset::from_emoji` and hands back the
/// label of the glyph found. Trusted: the table is fixed, so the outcome is
/// a function of the text alone, and `bundled_glyph` is its name.
#[verifier::external_body]
fn find_glyph(emoji: &str) -> (found: Option<Option<String>>)
    ensures
        glyph_view(found) == bundled_glyph(emoji@),
{
    match twemoji_assets::png::PngTwemojiAsset::from_emoji(emoji) {
        Some(asset) => match asset.label {
            Some(label) => Some(Some(label.to_string())),
            None => Some(None),
        },
        None => None,
    }
}

/// `plan` is what a glyph lookup with outcome `found`, made for the emoji
/// `used`, leads to: the placeholder where no glyph was found, an error
/// where the glyph has no label, else the glyph's image stored under its
/// label.
pub open spec fn glyph_plan_is(
    plan: Result<AssetPlan, ResolveError>,
    used: Seq<char>,
    found: Option<Option<Seq<char>>>,
) -> bool {
    match found {
        None => {
            &&& plan matches Ok(made)
            &&& made.path@ == placeholder_path()
            &&& made.source is Placeholder
        },
        Some(None) => plan matches Err(given) && given == ResolveError::MissingEmojiLabel,
        Some(Some(label)) => {
            &&& plan matches Ok(made)
            &&& made.path@ == asset_path(label, "png"@)
            &&& made.source matches AssetSource::Glyph(emoji)
            &&& emoji@ == used
        },
    }
}

/// `plan` is what resolving the unicode emoji `emoji` leads to: the glyph
/// of the whole codepoint sequence where the table holds one, else the
/// glyph of its first codepoint alone, else the placeholder.
pub open spec fn unicode_plan_is(plan: Result<AssetPlan, ResolveError>, emoji: Seq<char>) -> bool {
    if bundled_glyph(emoji) is Some {
        glyph_plan_is(plan, emoji, bundled_glyph(emoji))
    } else if emoji.len() > 0 {
        glyph_plan_is(plan, emoji.subrange(0, 1), bundled_glyph(emoji.subrange(0, 1)))
    } else {
        glyph_plan_is(plan, emoji, None)
    }
}

/// The plan that a glyph lookup leads to, given its outcome `found` for the
/// emoji `used`.
pub fn glyph_plan(used: &str, found: Option<Option<String>>) -> (plan: Result<
    AssetPlan,
    ResolveError,
>)
    ensures
        glyph_plan_is(plan, used@, glyph_view(found)),
{
    match found {
        None => Ok(
            AssetPlan { path: path_for("broken_emoji", "png"), source: AssetSource::Placeholder },
        ),
        Some(None) => Err(ResolveError::MissingEmojiLabel),
        Some(Some(label)) => Ok(
            AssetPlan {
                path: path_for(label.as_str(), "png"),
                source: AssetSource::Glyph(String::from_str(used)),
            },
        ),
    }
}

/// The plan for a unicode emoji. An emoji without a bundled glyph, for the
/// whole sequence and for its first codepoint, resolves to the placeholder
/// and never to an error.
pub fn unicode_emoji_plan(emoji: &str) -> (plan: Result<AssetPlan, ResolveError>)
    ensures
        unicode_plan_is(plan, emoji@),
        bundled_glyph(emoji@) is None && (emoji@.len() > 0 ==> bundled_glyph(
            emoji@.subrange(0, 1),
        ) is None) ==> (plan matches Ok(made) && made.path@ == placeholder_path()),
{
    let found = find_glyph(emoji);
    if found.is_some() {
        glyph_plan(emoji, found)
    } else if emoji.unicode_len() > 0 {
        let first = emoji.substring_char(0, 1);
        let fallback = find_glyph(first);
        glyph_plan(first, fallback)
    } else {
        glyph_plan(emoji, None)
    }
}

/// `plan` is what resolving `emoji` leads to.
pub open spec fn emoji_plan_is(plan: Result<AssetPlan, ResolveError>, emoji: EmojiRef) -> bool {
    match emoji {
        EmojiRef::Custom(id) => plan matches Ok(made) && made.fetches(
            custom_emoji_url(id),
            asset_path(decimal_digits(id as nat), "png"@),
        ),
        EmojiRef::Unicode(text) => unicode_plan_is(plan, text@),
    }
}

/// The plan for an emoji of either kind.
pub fn emoji_plan(emoji: &EmojiRef) -> (plan: Result<AssetPlan, ResolveError>)
    ensures
        emoji_plan_is(plan, *emoji),
{
    match emoji {
        EmojiRef::Custom(id) => Ok(custom_emoji_plan(*id)),
        EmojiRef::Unicode(text) => unicode_emoji_plan(text.as_str()),
    }
}

} // verus!
