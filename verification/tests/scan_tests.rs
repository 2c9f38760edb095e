use channel_archive::scan::{
    channel_mention_ids, custom_emoji_ids, read_token, scan_tokens, TokenKind,
};
use channel_archive::text::{decimal, push_decimal, to_chars};

#[test]
fn characters_of_a_text() {
    assert_eq!(to_chars("a\u{1F986}b"), vec!['a', '\u{1F986}', 'b']);
    assert!(to_chars("").is_empty());
}

#[test]
fn decimal_numerals() {
    assert_eq!(decimal(0), "0");
    assert_eq!(decimal(7), "7");
    assert_eq!(decimal(10), "10");
    assert_eq!(decimal(1905), "1905");
    assert_eq!(decimal(u64::MAX), "18446744073709551615");
    let mut text = String::from("n=");
    push_decimal(&mut text, 42);
    assert_eq!(text, "n=42");
}

#[test]
fn custom_emoji_token_is_found() {
    assert_eq!(
        custom_emoji_ids("hello <:party_blob:123456789012345678> there"),
        vec![123456789012345678]
    );
}

#[test]
fn custom_emoji_tokens_come_in_text_order() {
    let text = "<:a:111111111111111111><:b2:222222222222222222> x <:a:111111111111111111>";
    assert_eq!(
        custom_emoji_ids(text),
        vec![111111111111111111, 222222222222222222, 111111111111111111]
    );
}

#[test]
fn custom_emoji_token_needs_name_and_eighteen_digits() {
    assert!(custom_emoji_ids("<::123456789012345678>").is_empty());
    assert!(custom_emoji_ids("<:a:12345678901234567>").is_empty());
    assert!(custom_emoji_ids("<:a:1234567890123456789>").is_empty());
    assert!(custom_emoji_ids("<:a b:123456789012345678>").is_empty());
    assert!(custom_emoji_ids("<:a:12345678901234567x>").is_empty());
    assert!(custom_emoji_ids("<:a:123456789012345678").is_empty());
    assert!(custom_emoji_ids("<a:wave:123456789012345678>").is_empty());
    assert!(custom_emoji_ids("").is_empty());
    assert!(custom_emoji_ids("<").is_empty());
    assert!(custom_emoji_ids("<:").is_empty());
}

#[test]
fn custom_emoji_token_is_found_behind_a_false_start() {
    assert_eq!(custom_emoji_ids("<:<:ok:000000000000000042>"), vec![42]);
    assert_eq!(custom_emoji_ids("<:x:<:ok:100000000000000000>"), vec![100000000000000000]);
}

#[test]
fn channel_mention_is_found() {
    assert_eq!(
        channel_mention_ids("see <#987654321098765432> and <#000000000000000001>"),
        vec![987654321098765432, 1]
    );
}

#[test]
fn channel_mention_needs_eighteen_digits() {
    assert!(channel_mention_ids("<#123>").is_empty());
    assert!(channel_mention_ids("<#1234567890123456789>").is_empty());
    assert!(channel_mention_ids("<@123456789012345678>").is_empty());
    assert!(channel_mention_ids("<#123456789012345678").is_empty());
}

#[test]
fn the_two_grammars_do_not_mix() {
    let text = "<#123456789012345678> <:e:876543210987654321>";
    assert_eq!(channel_mention_ids(text), vec![123456789012345678]);
    assert_eq!(custom_emoji_ids(text), vec![876543210987654321]);
    assert_eq!(scan_tokens(text, TokenKind::ChannelMention), vec![123456789012345678]);
}

#[test]
fn read_token_gives_the_position_behind_the_token() {
    let chars = to_chars("ab<#123456789012345678>cd");
    assert_eq!(read_token(&chars, 2, TokenKind::ChannelMention), Some((123456789012345678, 23)));
    assert_eq!(read_token(&chars, 0, TokenKind::ChannelMention), None);
    assert_eq!(read_token(&chars, 2, TokenKind::CustomEmoji), None);
    assert_eq!(read_token(&chars, 100, TokenKind::CustomEmoji), None);
    let emoji = to_chars("<:n_1:999999999999999999>");
    assert_eq!(read_token(&emoji, 0, TokenKind::CustomEmoji), Some((999999999999999999, 25)));
}
