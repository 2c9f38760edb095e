//! File extensions of asset locations.
//!
//! The extension of a downloaded asset is taken from the path of the
//! location it is fetched from: what follows the last dot of the last path
//! segment.

use vstd::prelude::*;
use vstd::string::StrSliceExecFns;
use vstd::string::StringExecFns;
use crate::text::to_chars;

verus! {

/// The error of `url::Url::parse`, carried through as an opaque value.
#[verifier::external_type_specification]
#[verifier::external_body]
pub struct ExUrlParseError(url::ParseError);

/// Why an asset could not be resolved.
#[derive(Debug, Copy, Clone, PartialEq, Eq, Structural)]
pub enum ResolveError {
    /// The asset's location is no absolute URL.
    InvalidUrl,
    /// The path of the asset's location names no file extension.
    MissingExtension,
    /// The sticker has no image location.
    MissingStickerUrl,
    /// The bundled glyph of a unicode emoji carries no label to name its
    /// file by.
    MissingEmojiLabel,
}

/// The position of the last `c` in `s`, if there is one.
pub open spec fn last_index_of(s: Seq<char>, c: char) -> Option<int>
    decreases s.len(),
{
    if s.len() == 0 {
        None
    } else if s.last() == c {
        Some(s.len() - 1)
    } else {
        last_index_of(s.drop_last(), c)
    }
}

/// The last segment of a slash-separated path: what follows the last slash,
/// or the whole path where it has none.
pub open spec fn file_name(path: Seq<char>) -> Seq<char> {
    match last_index_of(path, '/') {
        Some(i) => path.subrange(i + 1, path.len() as int),
        None => path,
    }
}

/// The extension that a path names: what follows the last dot of its last
/// segment. A segment without a dot, or whose only dot is its first
/// character, names none.
pub open spec fn extension(path: Seq<char>) -> Option<Seq<char>> {
    let name = file_name(path);
    match last_index_of(name, '.') {
        Some(i) => if i > 0 {
            Some(name.subrange(i + 1, name.len() as int))
        } else {
            None
        },
        None => None,
    }
}

/// A sequence that does not end in `c` has its last `c` where its front
/// has it.
proof fn lemma_last_index_of_prefix(s: Seq<char>, c: char)
    requires
        s.len() > 0,
        s.last() != c,
    ensures
        last_index_of(s, c) == last_index_of(s.drop_last(), c),
{
}

/// The position of the last `c` among `chars`.
fn find_last(chars: &Vec<char>, c: char) -> (found: Option<usize>)
    ensures
        match found {
            Some(i) => last_index_of(chars@, c) == Some(i as int) && i < chars@.len(),
            None => last_index_of(chars@, c) is None,
        },
{
    let mut i: usize = chars.len();
    assert(chars@.subrange(0, i as int) =~= chars@);
    while i > 0
        invariant
            i <= chars@.len(),
            last_index_of(chars@, c) == last_index_of(chars@.subrange(0, i as int), c),
        decreases i,
    {
        if chars[i - 1] == c {
            return Some(i - 1);
        }
        proof {
            let prefix = chars@.subrange(0, i as int);
            lemma_last_index_of_prefix(prefix, c);
            assert(prefix.drop_last() =~= chars@.subrange(0, i - 1));
        }
        i = i - 1;
    }
    None
}

/// The extension that `path` names, if it names one.
pub fn extension_of_path(path: &str) -> (found: Option<String>)
    ensures
        match found {
            Some(ext) => extension(path@) == Some(ext@),
            None => extension(path@) is None,
        },
{
    let chars = to_chars(path);
    let length = chars.len();
    let start: usize = match find_last(&chars, '/') {
        Some(i) => i + 1,
        None => 0,
    };
    let name = path.substring_char(start, length);
    assert(name@ == file_name(path@));
    let name_chars = to_chars(name);
    match find_last(&name_chars, '.') {
        Some(i) => {
            if i > 0 {
                let ext = name.substring_char(i + 1, name_chars.len());
                Some(String::from_str(ext))
            } else {
                None
            }
        },
        None => None,
    }
}

/// The path of an absolute URL, percent-encoded, or nothing where the text
/// is no absolute URL.
pub uninterp spec fn url_path(url: Seq<char>) -> Option<Seq<char>>;

/// Parses `url` with `url::Url::parse` and takes the path of the result with
/// `Url::path`. Trusted: the outcome is a function of the text alone, and
/// `url_path` is its name.
#[verifier::external_body]
fn parse_url_path(url: &str) -> (parsed: Result<String, url::ParseError>)
    ensures
        match parsed {
            Ok(path) => url_path(url@) == Some(path@),
            Err(_) => url_path(url@) is None,
        },
{
    match url::Url::parse(url) {
        Ok(parsed) => Ok(parsed.path().to_string()),
        Err(error) => Err(error),
    }
}

/// What `get_extension_from_url` answers for a location whose parsed path is
/// `path`, with nothing for a location that does not parse.
pub open spec fn extension_outcome(path: Option<Seq<char>>) -> Result<Seq<char>, ResolveError> {
    match path {
        None => Err(ResolveError::InvalidUrl),
        Some(path) => match extension(path) {
            None => Err(ResolveError::MissingExtension),
            Some(ext) => Ok(ext),
        },
    }
}

/// The extension for a location, given its parsed path.
pub fn extension_from_parsed(path: Option<String>) -> (found: Result<String, ResolveError>)
    ensures
        match found {
            Ok(ext) => extension_outcome(option_view(path)) == Ok::<Seq<char>, ResolveError>(
                ext@,
            ),
            Err(error) => extension_outcome(option_view(path)) == Err::<
                Seq<char>,
                ResolveError,
            >(error),
        },
{
    match path {
        None => Err(ResolveError::InvalidUrl),
        Some(path) => match extension_of_path(path.as_str()) {
            None => Err(ResolveError::MissingExtension),
            Some(ext) => Ok(ext),
        },
    }
}

/// The characters of an optional string.
pub open spec fn option_view(text: Option<String>) -> Option<Seq<char>> {
    match text {
        Some(text) => Some(text@),
        None => None,
    }
}

/// The file extension that the location `file_url` names: `InvalidUrl`
/// where it is no absolute URL, `MissingExtension` where its path names
/// none.
pub fn get_extension_from_url(file_url: &str) -> (found: Result<String, ResolveError>)
    ensures
        match found {
            Ok(ext) => extension_outcome(url_path(file_url@)) == Ok::<Seq<char>, ResolveError>(
                ext@,
            ),
            Err(error) => extension_outcome(url_path(file_url@)) == Err::<
                Seq<char>,
                ResolveError,
            >(error),
        },
{
    let path = match parse_url_path(file_url) {
        Ok(path) => Some(path),
        Err(_) => None,
    };
    extension_from_parsed(path)
}

} // verus!
