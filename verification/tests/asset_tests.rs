use channel_archive::assets::{
    attachment_plan, avatar_plan, custom_emoji_plan, emoji_plan, glyph_plan, sticker_plan,
    unicode_emoji_plan, AssetKey, AssetPlan, AssetSource,
};
use channel_archive::cache::AssetCache;
use channel_archive::extension::{
    extension_from_parsed, extension_of_path, get_extension_from_url, ResolveError,
};
use channel_archive::message::{Attachment, Author, EmojiRef, StickerItem};
use std::cell::Cell;

fn remote(plan: &AssetPlan) -> String {
    match &plan.source {
        AssetSource::Remote(url) => url.clone(),
        other => panic!("not a download: {:?}", other),
    }
}

#[test]
fn extension_follows_the_last_dot_of_the_last_segment() {
    assert_eq!(extension_of_path("/avatars/1/abc.png"), Some(String::from("png")));
    assert_eq!(extension_of_path("/a.b/c.tar.gz"), Some(String::from("gz")));
    assert_eq!(extension_of_path("file.webp"), Some(String::from("webp")));
    assert_eq!(extension_of_path("/name."), Some(String::new()));
}

#[test]
fn extension_is_missing_without_a_dot_in_the_last_segment() {
    assert_eq!(extension_of_path("/avatars/abc"), None);
    assert_eq!(extension_of_path("/a.b/c"), None);
    assert_eq!(extension_of_path("/dir/"), None);
    assert_eq!(extension_of_path(""), None);
    assert_eq!(extension_of_path("/.hidden"), None);
}

#[test]
fn extension_from_url_ignores_query_and_fragment() {
    assert_eq!(
        get_extension_from_url("https://cdn.example.com/avatars/1/abc.png?size=1024"),
        Ok(String::from("png"))
    );
    assert_eq!(
        get_extension_from_url("https://cdn.example.com/stickers/7.json#frag.txt"),
        Ok(String::from("json"))
    );
}

#[test]
fn extension_from_url_rejects_what_is_no_url() {
    assert_eq!(get_extension_from_url("not a url"), Err(ResolveError::InvalidUrl));
    assert_eq!(get_extension_from_url("/avatars/abc.png"), Err(ResolveError::InvalidUrl));
}

#[test]
fn extension_from_url_reports_a_missing_extension() {
    assert_eq!(
        get_extension_from_url("https://cdn.example.com/avatars/abc"),
        Err(ResolveError::MissingExtension)
    );
    assert_eq!(get_extension_from_url("https://example.com"), Err(ResolveError::MissingExtension));
}

#[test]
fn extension_from_parsed_path() {
    assert_eq!(extension_from_parsed(None), Err(ResolveError::InvalidUrl));
    assert_eq!(
        extension_from_parsed(Some(String::from("/x/y"))),
        Err(ResolveError::MissingExtension)
    );
    assert_eq!(extension_from_parsed(Some(String::from("/x/y.gif"))), Ok(String::from("gif")));
}

#[test]
fn avatar_is_stored_under_the_user_identifier() {
    let user = Author {
        id: 4242,
        face_url: String::from("https://cdn.example.com/avatars/4242/f00.webp?size=1024"),
    };
    let plan = avatar_plan(&user).unwrap();
    assert_eq!(plan.path, "assets/4242.webp");
    assert_eq!(remote(&plan), "https://cdn.example.com/avatars/4242/f00.webp?size=1024");
}

#[test]
fn avatar_without_extension_fails() {
    let user = Author { id: 1, face_url: String::from("https://cdn.example.com/avatars/1/f00") };
    assert_eq!(avatar_plan(&user).unwrap_err(), ResolveError::MissingExtension);
}

#[test]
fn sticker_needs_an_image_location() {
    let sticker = StickerItem { id: 9, image_url: None };
    assert_eq!(sticker_plan(&sticker).unwrap_err(), ResolveError::MissingStickerUrl);
}

#[test]
fn sticker_is_stored_under_its_identifier() {
    let sticker = StickerItem {
        id: 900,
        image_url: Some(String::from("https://media.example.net/stickers/900.png")),
    };
    let plan = sticker_plan(&sticker).unwrap();
    assert_eq!(plan.path, "assets/900.png");
    assert_eq!(remote(&plan), "https://media.example.net/stickers/900.png");
}

#[test]
fn custom_emoji_comes_from_the_platform_location() {
    let plan = custom_emoji_plan(123_456_789_012_345_678);
    assert_eq!(plan.path, "assets/123456789012345678.png");
    assert_eq!(remote(&plan), "https://cdn.discordapp.com/emojis/123456789012345678.png");
    let zero = custom_emoji_plan(0);
    assert_eq!(zero.path, "assets/0.png");
}

#[test]
fn attachment_keeps_its_file_name() {
    let attachment = Attachment {
        id: 55,
        filename: String::from("notes v2.txt"),
        url: String::from("https://cdn.example.com/attachments/55/notes.txt"),
    };
    let plan = attachment_plan(&attachment);
    assert_eq!(plan.path, "assets/55_notes v2.txt");
    assert_eq!(remote(&plan), "https://cdn.example.com/attachments/55/notes.txt");
}

#[test]
fn unicode_emoji_uses_the_bundled_glyph() {
    let plan = unicode_emoji_plan("\u{1F986}").unwrap();
    assert_eq!(plan.path, "assets/duck.png");
    match plan.source {
        AssetSource::Glyph(emoji) => assert_eq!(emoji, "\u{1F986}"),
        other => panic!("unexpected source {:?}", other),
    }
}

#[test]
fn unicode_emoji_falls_back_to_its_first_codepoint() {
    let plan = unicode_emoji_plan("\u{1F986}\u{1F3FB}").unwrap();
    assert_eq!(plan.path, "assets/duck.png");
    match plan.source {
        AssetSource::Glyph(emoji) => assert_eq!(emoji, "\u{1F986}"),
        other => panic!("unexpected source {:?}", other),
    }
}

#[test]
fn unicode_emoji_without_glyph_resolves_to_the_placeholder() {
    for emoji in ["not an emoji", "", "\u{E000}"] {
        let plan = unicode_emoji_plan(emoji).unwrap();
        assert_eq!(plan.path, "assets/broken_emoji.png");
        assert!(matches!(plan.source, AssetSource::Placeholder));
    }
}

#[test]
fn glyph_plan_by_lookup_outcome() {
    let placeholder = glyph_plan("x", None).unwrap();
    assert_eq!(placeholder.path, "assets/broken_emoji.png");
    assert_eq!(glyph_plan("x", Some(None)).unwrap_err(), ResolveError::MissingEmojiLabel);
    let labelled = glyph_plan("x", Some(Some(String::from("owl")))).unwrap();
    assert_eq!(labelled.path, "assets/owl.png");
    assert!(matches!(labelled.source, AssetSource::Glyph(ref emoji) if emoji == "x"));
}

#[test]
fn emoji_plan_covers_both_kinds() {
    let custom = emoji_plan(&EmojiRef::Custom(77)).unwrap();
    assert_eq!(custom.path, "assets/77.png");
    let unicode = emoji_plan(&EmojiRef::Unicode(String::from("\u{1F989}"))).unwrap();
    assert_eq!(unicode.path, "assets/owl.png");
}

#[test]
fn asset_keys_compare_by_kind_and_identity() {
    assert!(AssetKey::Avatar(1).same(&AssetKey::Avatar(1)));
    assert!(!AssetKey::Avatar(1).same(&AssetKey::Avatar(2)));
    assert!(!AssetKey::Avatar(1).same(&AssetKey::Sticker(1)));
    assert!(!AssetKey::CustomEmoji(1).same(&AssetKey::Sticker(1)));
    let a = AssetKey::UnicodeEmoji(String::from("a"));
    assert!(a.same(&a.duplicate()));
    assert!(!a.same(&AssetKey::UnicodeEmoji(String::from("b"))));
    assert!(AssetKey::of_emoji(&EmojiRef::Custom(5)).same(&AssetKey::CustomEmoji(5)));
    assert!(AssetKey::of_emoji(&EmojiRef::Unicode(String::from("a"))).same(&a));
}

#[test]
fn cache_returns_what_was_inserted_first() {
    let mut cache = AssetCache::new();
    assert_eq!(cache.len(), 0);
    assert_eq!(cache.get(&AssetKey::Avatar(1)), None);
    let stored = cache.insert(AssetKey::Avatar(1), String::from("assets/1.png"));
    assert_eq!(stored, "assets/1.png");
    let again = cache.insert(AssetKey::Avatar(1), String::from("assets/other.png"));
    assert_eq!(again, "assets/1.png");
    assert_eq!(cache.len(), 1);
    assert_eq!(cache.get(&AssetKey::Avatar(1)), Some(String::from("assets/1.png")));
    assert_eq!(cache.get(&AssetKey::Sticker(1)), None);
}

#[test]
fn cache_keeps_earlier_entries_when_it_grows() {
    let mut cache = AssetCache::new();
    cache.insert(AssetKey::Avatar(1), String::from("assets/1.png"));
    cache.insert(AssetKey::Sticker(1), String::from("assets/1.gif"));
    cache.insert(AssetKey::UnicodeEmoji(String::from("x")), String::from("assets/x.png"));
    assert_eq!(cache.len(), 3);
    assert_eq!(cache.get(&AssetKey::Avatar(1)), Some(String::from("assets/1.png")));
    assert_eq!(cache.get(&AssetKey::Sticker(1)), Some(String::from("assets/1.gif")));
}

#[test]
fn resolve_runs_the_resolver_once_per_key() {
    let mut cache = AssetCache::new();
    let runs = Cell::new(0);
    let first: Result<String, ()> = cache.resolve(AssetKey::CustomEmoji(7), || {
        runs.set(runs.get() + 1);
        Ok(String::from("assets/7.png"))
    });
    let second: Result<String, ()> = cache.resolve(AssetKey::CustomEmoji(7), || {
        runs.set(runs.get() + 1);
        Ok(String::from("assets/elsewhere.png"))
    });
    assert_eq!(first, Ok(String::from("assets/7.png")));
    assert_eq!(second, first);
    assert_eq!(runs.get(), 1);
}

#[test]
fn resolve_stores_nothing_when_the_resolver_fails() {
    let mut cache = AssetCache::new();
    let failed: Result<String, u8> = cache.resolve(AssetKey::Sticker(3), || Err(4));
    assert_eq!(failed, Err(4));
    assert_eq!(cache.len(), 0);
    let retried: Result<String, u8> =
        cache.resolve(AssetKey::Sticker(3), || Ok(String::from("assets/3.png")));
    assert_eq!(retried, Ok(String::from("assets/3.png")));
    assert_eq!(cache.len(), 1);
}
