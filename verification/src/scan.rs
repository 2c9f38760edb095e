//! Tokens of the platform's message markup that name other things: the
//! custom emoji token `<:name:id>` and the channel mention `<#id>`.
//!
//! A name is one or more ASCII letters, digits or underscores. An
//! identifier is exactly eighteen ASCII digits. A text is read from left to
//! right; where a token is found, reading goes on behind it.

use vstd::prelude::*;
use crate::text::to_chars;

verus! {

/// The number of digits of an identifier in a token.
pub const ID_DIGITS: usize = 18;

/// The two token grammars.
#[derive(Debug, Copy, Clone, PartialEq, Eq, Structural)]
pub enum TokenKind {
    /// `<:name:id>`
    CustomEmoji,
    /// `<#id>`
    ChannelMention,
}

/// A character that a name may hold.
pub open spec fn is_word(c: char) -> bool {
    ('a' <= c && c <= 'z') || ('A' <= c && c <= 'Z') || ('0' <= c && c <= '9') || c == '_'
}

/// An ASCII digit.
pub open spec fn is_digit(c: char) -> bool {
    '0' <= c && c <= '9'
}

/// The value of an ASCII digit.
pub open spec fn digit_value(c: char) -> nat {
    (c as nat - '0' as nat) as nat
}

/// The number that a sequence of digits writes in decimal.
pub open spec fn digits_value(digits: Seq<char>) -> nat
    decreases digits.len(),
{
    if digits.len() == 0 {
        0
    } else {
        digits_value(digits.drop_last()) * 10 + digit_value(digits.last())
    }
}

/// Whether the characters of `s` from `from` up to `to` are all digits.
pub open spec fn all_digits(s: Seq<char>, from: int, to: int) -> bool {
    forall|k: int| from <= k < to ==> is_digit(#[trigger] s[k])
}

/// The number of name characters that stand in `s` from position `j` on
/// without a break.
pub open spec fn word_run(s: Seq<char>, j: int) -> nat
    decreases s.len() - j,
{
    if 0 <= j < s.len() && is_word(s[j]) {
        1 + word_run(s, j + 1)
    } else {
        0
    }
}

/// Where the identifier of a token of the given kind begins, if the
/// opening of such a token stands at position `i`.
pub open spec fn id_start(s: Seq<char>, i: int, kind: TokenKind) -> Option<int> {
    if 0 <= i && i + 2 <= s.len() && s[i] == '<' {
        match kind {
            TokenKind::ChannelMention => if s[i + 1] == '#' {
                Some(i + 2)
            } else {
                None
            },
            TokenKind::CustomEmoji => {
                let name = word_run(s, i + 2);
                if s[i + 1] == ':' && name >= 1 && i + 2 + name < s.len() && s[i + 2 + name]
                    == ':' {
                    Some(i + 3 + name)
                } else {
                    None
                }
            },
        }
    } else {
        None
    }
}

/// The token of the given kind that begins at position `i`, if one does:
/// its identifier, and the position behind its closing bracket.
pub open spec fn token_at(s: Seq<char>, i: int, kind: TokenKind) -> Option<(u64, int)> {
    match id_start(s, i, kind) {
        Some(start) => if start + ID_DIGITS < s.len() && all_digits(s, start, start + ID_DIGITS)
            && s[start + ID_DIGITS] == '>' {
            Some((digits_value(s.subrange(start, start + ID_DIGITS)) as u64, start + ID_DIGITS + 1))
        } else {
            None
        },
        None => None,
    }
}

/// The identifiers of the tokens of the given kind in `s` from position
/// `i` on, in the order in which they stand.
pub open spec fn tokens_from(s: Seq<char>, i: int, kind: TokenKind) -> Seq<u64>
    decreases s.len() - i,
{
    if i < 0 || i >= s.len() {
        Seq::empty()
    } else {
        match token_at(s, i, kind) {
            Some((id, behind)) => if behind > i {
                seq![id] + tokens_from(s, behind, kind)
            } else {
                Seq::empty()
            },
            None => tokens_from(s, i + 1, kind),
        }
    }
}

/// The identifiers of the tokens of the given kind in `s`.
pub open spec fn tokens(s: Seq<char>, kind: TokenKind) -> Seq<u64> {
    tokens_from(s, 0, kind)
}

/// Ten to the power of `k`.
pub open spec fn pow10(k: nat) -> nat
    decreases k,
{
    if k == 0 {
        1
    } else {
        10 * pow10((k - 1) as nat)
    }
}

proof fn lemma_pow10_grows(a: nat, b: nat)
    requires
        a <= b,
    ensures
        pow10(a) <= pow10(b),
        pow10(a) >= 1,
    decreases b,
{
    if a < b {
        lemma_pow10_grows(a, (b - 1) as nat);
    } else if a > 0 {
        lemma_pow10_grows((a - 1) as nat, (a - 1) as nat);
    }
}

proof fn lemma_pow10_id_digits()
    ensures
        pow10(18) == 1_000_000_000_000_000_000,
{
    reveal_with_fuel(pow10, 19);
}

fn word_char(c: char) -> (word: bool)
    ensures
        word == is_word(c),
{
    ('a' <= c && c <= 'z') || ('A' <= c && c <= 'Z') || ('0' <= c && c <= '9') || c == '_'
}

/// The number of name characters from position `j` on.
fn run_length(chars: &Vec<char>, j: usize) -> (run: usize)
    requires
        j <= chars@.len(),
    ensures
        run == word_run(chars@, j as int),
        j + run <= chars@.len(),
{
    let mut end: usize = j;
    while end < chars.len() && word_char(chars[end])
        invariant
            j <= end <= chars@.len(),
            word_run(chars@, j as int) == (end - j) + word_run(chars@, end as int),
        decreases chars@.len() - end,
    {
        end = end + 1;
    }
    end - j
}

/// Where the identifier of a token of the given kind begins.
fn find_id_start(chars: &Vec<char>, i: usize, kind: TokenKind) -> (start: Option<usize>)
    ensures
        match start {
            Some(at) => id_start(chars@, i as int, kind) == Some(at as int) && at
                <= chars@.len(),
            None => id_start(chars@, i as int, kind) is None,
        },
{
    let length = chars.len();
    if length < 2 || i > length - 2 {
        return None;
    }
    if chars[i] != '<' {
        return None;
    }
    match kind {
        TokenKind::ChannelMention => {
            if chars[i + 1] == '#' {
                Some(i + 2)
            } else {
                None
            }
        },
        TokenKind::CustomEmoji => {
            if chars[i + 1] != ':' {
                return None;
            }
            let name = run_length(chars, i + 2);
            if name >= 1 && i + 2 + name < length && chars[i + 2 + name] == ':' {
                Some(i + 3 + name)
            } else {
                None
            }
        },
    }
}

/// Reads the eighteen digits of an identifier that begin at `start`.
fn read_id(chars: &Vec<char>, start: usize) -> (id: Option<u64>)
    requires
        start + ID_DIGITS <= chars@.len(),
    ensures
        match id {
            Some(id) => all_digits(chars@, start as int, start + ID_DIGITS) && id
                == digits_value(chars@.subrange(start as int, start + ID_DIGITS)),
            None => !all_digits(chars@, start as int, start + ID_DIGITS),
        },
{
    let length = chars.len();
    let mut value: u64 = 0;
    let mut k: usize = 0;
    assert(chars@.subrange(start as int, start as int) =~= Seq::<char>::empty());
    proof {
        lemma_pow10_grows(0, 0);
    }
    while k < ID_DIGITS
        invariant
            k <= ID_DIGITS,
            length == chars@.len(),
            start + ID_DIGITS <= length,
            all_digits(chars@, start as int, start + k),
            value == digits_value(chars@.subrange(start as int, start + k)),
            value < pow10(k as nat),
        decreases ID_DIGITS - k,
    {
        let c = chars[start + k];
        if !('0' <= c && c <= '9') {
            return None;
        }
        let digit: u64 = match c {
            '0' => 0,
            '1' => 1,
            '2' => 2,
            '3' => 3,
            '4' => 4,
            '5' => 5,
            '6' => 6,
            '7' => 7,
            '8' => 8,
            _ => 9,
        };
        assert(digit == digit_value(c));
        proof {
            lemma_pow10_grows(k as nat, 17);
            lemma_pow10_grows(17, 18);
            lemma_pow10_id_digits();
            let longer = chars@.subrange(start as int, start + k + 1);
            assert(longer.drop_last() =~= chars@.subrange(start as int, start + k));
            assert(longer.last() == c);
            assert(pow10((k + 1) as nat) == 10 * pow10(k as nat));
        }
        value = value * 10 + digit;
        k = k + 1;
    }
    Some(value)
}

/// The token of the given kind that begins at position `i`, if one does:
/// its identifier, and the position behind it.
pub fn read_token(chars: &Vec<char>, i: usize, kind: TokenKind) -> (token: Option<(u64, usize)>)
    ensures
        match token {
            Some((id, behind)) => token_at(chars@, i as int, kind) == Some((id, behind as int))
                && i < behind <= chars@.len(),
            None => token_at(chars@, i as int, kind) is None,
        },
{
    match find_id_start(chars, i, kind) {
        Some(start) => {
            if chars.len() - start > ID_DIGITS {
                match read_id(chars, start) {
                    Some(id) => {
                        if chars[start + ID_DIGITS] == '>' {
                            Some((id, start + ID_DIGITS + 1))
                        } else {
                            None
                        }
                    },
                    None => None,
                }
            } else {
                None
            }
        },
        None => None,
    }
}

/// The identifiers of the tokens of the given kind in `content`, in the
/// order in which they stand.
pub fn scan_tokens(content: &str, kind: TokenKind) -> (ids: Vec<u64>)
    ensures
        ids@ == tokens(content@, kind),
{
    let chars = to_chars(content);
    let mut ids: Vec<u64> = Vec::new();
    let mut i: usize = 0;
    while i < chars.len()
        invariant
            chars@ == content@,
            i <= chars@.len(),
            ids@ + tokens_from(chars@, i as int, kind) == tokens(chars@, kind),
        decreases chars@.len() - i,
    {
        match read_token(&chars, i, kind) {
            Some((id, behind)) => {
                proof {
                    assert(ids@.push(id) + tokens_from(chars@, behind as int, kind) =~= ids@ + (
                    seq![id] + tokens_from(chars@, behind as int, kind)));
                }
                ids.push(id);
                i = behind;
            },
            None => {
                i = i + 1;
            },
        }
    }
    assert(ids@ + tokens_from(chars@, i as int, kind) =~= ids@);
    ids
}

/// The identifiers of the custom emoji that `content` names by a token
/// `<:name:id>`.
pub fn custom_emoji_ids(content: &str) -> (ids: Vec<u64>)
    ensures
        ids@ == tokens(content@, TokenKind::CustomEmoji),
{
    scan_tokens(content, TokenKind::CustomEmoji)
}

/// The identifiers of the channels that `content` mentions by a token
/// `<#id>`.
pub fn channel_mention_ids(content: &str) -> (ids: Vec<u64>)
    ensures
        ids@ == tokens(content@, TokenKind::ChannelMention),
{
    scan_tokens(content, TokenKind::ChannelMention)
}

} // verus!
