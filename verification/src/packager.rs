//! The archive packager: which entries of a walked directory tree go into
//! the bundle, and how a finished bundle is delivered.
//!
//! The caller walks the working directory and hands in what it found, each
//! entry with its path relative to the root, separated by slashes. Every
//! regular file becomes a file entry, every directory with nothing beneath
//! it a directory entry, so that empty subtrees survive; the root itself
//! and whatever is neither file nor directory are left out.

use vstd::prelude::*;
use vstd::string::StringExecFns;
use crate::text::{decimal_digits, push_decimal, to_chars};

verus! {

/// The permission bits that every entry of the bundle carries.
pub const ENTRY_PERMISSIONS: u32 = 0o755;

/// The size from which on a bundle is uploaded to a file host and linked
/// instead of being attached: a little under the platform's limit.
pub const SIZE_LIMIT: u64 = 24_000_000;

/// What a walked entry is.
#[derive(Debug, Copy, Clone, PartialEq, Eq, Structural)]
pub enum EntryKind {
    File,
    Directory,
    Other,
}

/// One entry of the walked tree.
#[derive(Debug, Clone)]
pub struct WalkEntry {
    pub path: String,
    pub kind: EntryKind,
}

/// One entry of the bundle.
#[derive(Debug, Clone)]
pub struct ArchiveEntry {
    pub name: String,
    pub directory: bool,
    pub permissions: u32,
}

/// How a finished bundle reaches the user.
#[derive(Debug, Copy, Clone, PartialEq, Eq, Structural)]
pub enum Delivery {
    /// Attached to a message.
    Attach,
    /// Uploaded to a file host; the message carries the link.
    UploadAndLink,
}

/// The delivery for a bundle of `size` bytes.
pub fn delivery_for(size: u64) -> (delivery: Delivery)
    ensures
        delivery == if size < SIZE_LIMIT {
            Delivery::Attach
        } else {
            Delivery::UploadAndLink
        },
{
    if size < SIZE_LIMIT {
        Delivery::Attach
    } else {
        Delivery::UploadAndLink
    }
}

/// Whether `path` lies beneath the directory `dir`.
pub open spec fn is_beneath(path: Seq<char>, dir: Seq<char>) -> bool {
    &&& path.len() > dir.len()
    &&& path.take(dir.len() as int) == dir
    &&& path[dir.len() as int] == '/'
}

/// Whether some walked entry lies beneath the entry at position `i`.
pub open spec fn has_descendant(entries: Seq<WalkEntry>, i: int) -> bool {
    exists|j: int| 0 <= j < entries.len() && is_beneath(#[trigger] entries[j].path@, entries[i].path@)
}

/// Whether the entry at position `i` goes into the bundle.
pub open spec fn keeps(entries: Seq<WalkEntry>, i: int) -> bool {
    match entries[i].kind {
        EntryKind::File => true,
        EntryKind::Directory => entries[i].path@.len() > 0 && !has_descendant(entries, i),
        EntryKind::Other => false,
    }
}

/// The name of a bundle entry and whether it is a directory.
pub open spec fn entry_view(entry: ArchiveEntry) -> (Seq<char>, bool) {
    (entry.name@, entry.directory)
}

/// The bundle entries for the first `n` walked entries, in the order of
/// the walk.
pub open spec fn planned(entries: Seq<WalkEntry>, n: int) -> Seq<(Seq<char>, bool)>
    decreases n,
{
    if n <= 0 {
        Seq::empty()
    } else if keeps(entries, n - 1) {
        planned(entries, n - 1).push(
            (entries[n - 1].path@, entries[n - 1].kind == EntryKind::Directory),
        )
    } else {
        planned(entries, n - 1)
    }
}

/// The paths of the regular files among the first `n` walked entries.
pub open spec fn walked_files(entries: Seq<WalkEntry>, n: int) -> Seq<Seq<char>>
    decreases n,
{
    if n <= 0 {
        Seq::empty()
    } else if entries[n - 1].kind == EntryKind::File {
        walked_files(entries, n - 1).push(entries[n - 1].path@)
    } else {
        walked_files(entries, n - 1)
    }
}

/// The names of the file entries of a bundle.
pub open spec fn bundled_files(bundle: Seq<(Seq<char>, bool)>) -> Seq<Seq<char>>
    decreases bundle.len(),
{
    if bundle.len() == 0 {
        Seq::empty()
    } else if !bundle.last().1 {
        bundled_files(bundle.drop_last()).push(bundle.last().0)
    } else {
        bundled_files(bundle.drop_last())
    }
}

/// The bundle holds exactly the regular files of the walk, under their
/// relative paths and in the order of the walk.
pub proof fn lemma_bundle_keeps_files(entries: Seq<WalkEntry>, n: int)
    requires
        0 <= n <= entries.len(),
    ensures
        bundled_files(planned(entries, n)) == walked_files(entries, n),
    decreases n,
{
    if n > 0 {
        lemma_bundle_keeps_files(entries, n - 1);
        let before = planned(entries, n - 1);
        if keeps(entries, n - 1) {
            let entry = (entries[n - 1].path@, entries[n - 1].kind == EntryKind::Directory);
            assert(before.push(entry).drop_last() =~= before);
        }
    }
}

fn beneath(path: &Vec<char>, dir: &Vec<char>) -> (below: bool)
    ensures
        below == is_beneath(path@, dir@),
{
    let length = dir.len();
    if path.len() <= length {
        return false;
    }
    let mut k: usize = 0;
    while k < length
        invariant
            k <= length,
            length == dir@.len(),
            length < path@.len(),
            path@.take(k as int) == dir@.take(k as int),
        decreases length - k,
    {
        if path[k] != dir[k] {
            assert(path@.take(length as int)[k as int] != dir@[k as int]);
            return false;
        }
        assert(path@.take(k + 1) =~= path@.take(k as int).push(path@[k as int]));
        assert(dir@.take(k + 1) =~= dir@.take(k as int).push(dir@[k as int]));
        k = k + 1;
    }
    assert(dir@.take(length as int) =~= dir@);
    path[length] == '/'
}

fn any_beneath(entries: &Vec<WalkEntry>, paths: &Vec<Vec<char>>, i: usize) -> (found: bool)
    requires
        i < entries@.len(),
        paths@.len() == entries@.len(),
        forall|j: int| 0 <= j < entries@.len() ==> (#[trigger] paths@[j])@ == entries@[j].path@,
    ensures
        found == has_descendant(entries@, i as int),
{
    let mut j: usize = 0;
    while j < paths.len()
        invariant
            j <= paths@.len(),
            i < entries@.len(),
            paths@.len() == entries@.len(),
            forall|j: int|
                0 <= j < entries@.len() ==> (#[trigger] paths@[j])@ == entries@[j].path@,
            forall|k: int|
                0 <= k < j ==> !is_beneath(#[trigger] entries@[k].path@, entries@[i as int].path@),
        decreases paths@.len() - j,
    {
        if beneath(&paths[j], &paths[i]) {
            assert(is_beneath(entries@[j as int].path@, entries@[i as int].path@));
            return true;
        }
        j = j + 1;
    }
    false
}

/// The entries of the bundle for a walked tree.
pub fn plan_archive(entries: &Vec<WalkEntry>) -> (bundle: Vec<ArchiveEntry>)
    ensures
        bundle@.map_values(|entry: ArchiveEntry| entry_view(entry)) == planned(
            entries@,
            entries@.len() as int,
        ),
        forall|k: int|
            0 <= k < bundle@.len() ==> (#[trigger] bundle@[k]).permissions == ENTRY_PERMISSIONS,
{
    let mut paths: Vec<Vec<char>> = Vec::new();
    let mut i: usize = 0;
    while i < entries.len()
        invariant
            i <= entries@.len(),
            paths@.len() == i,
            forall|j: int| 0 <= j < i ==> (#[trigger] paths@[j])@ == entries@[j].path@,
        decreases entries@.len() - i,
    {
        paths.push(to_chars(entries[i].path.as_str()));
        i = i + 1;
    }
    let mut bundle: Vec<ArchiveEntry> = Vec::new();
    let mut n: usize = 0;
    assert(bundle@.map_values(|entry: ArchiveEntry| entry_view(entry)) =~= planned(entries@, 0));
    while n < entries.len()
        invariant
            n <= entries@.len(),
            paths@.len() == entries@.len(),
            forall|j: int|
                0 <= j < entries@.len() ==> (#[trigger] paths@[j])@ == entries@[j].path@,
            bundle@.map_values(|entry: ArchiveEntry| entry_view(entry)) == planned(
                entries@,
                n as int,
            ),
            forall|k: int|
                0 <= k < bundle@.len() ==> (#[trigger] bundle@[k]).permissions
                    == ENTRY_PERMISSIONS,
        decreases entries@.len() - n,
    {
        let keep = match entries[n].kind {
            EntryKind::File => true,
            EntryKind::Directory => paths[n].len() > 0 && !any_beneath(entries, &paths, n),
            EntryKind::Other => false,
        };
        if keep {
            let ghost before = bundle@;
            let entry = ArchiveEntry {
                name: entries[n].path.clone(),
                directory: entries[n].kind == EntryKind::Directory,
                permissions: ENTRY_PERMISSIONS,
            };
            bundle.push(entry);
            assert(bundle@.map_values(|entry: ArchiveEntry| entry_view(entry)) =~= before.map_values(
                |entry: ArchiveEntry| entry_view(entry),
            ).push(entry_view(entry)));
        }
        n = n + 1;
    }
    bundle
}

/// A signed number in decimal.
pub open spec fn signed_digits(n: int) -> Seq<char> {
    if n < 0 {
        "-"@ + decimal_digits((-n) as nat)
    } else {
        decimal_digits(n as nat)
    }
}

/// The notice that goes with an uploaded bundle: where to download it,
/// when the link expires, as a moment that the platform renders relative
/// to the reader's clock, and after how many downloads.
pub open spec fn notice_of(
    prefix: Seq<char>,
    link: Seq<char>,
    expires: i64,
    downloads: Seq<char>,
) -> Seq<char> {
    prefix + "\nDownload archive at "@ + link + "\nFile will expire <t:"@ + signed_digits(
        expires as int,
    ) + ":R>, or after "@ + downloads
}

/// Appends a signed number in decimal.
fn push_signed(out: &mut String, n: i64)
    ensures
        final(out)@ == old(out)@ + signed_digits(n as int),
{
    if n < 0 {
        out.append("-");
        let magnitude: u64 = if n == i64::MIN {
            9_223_372_036_854_775_808
        } else {
            (-n) as u64
        };
        push_decimal(out, magnitude);
        assert(out@ =~= old(out)@ + signed_digits(n as int));
    } else {
        push_decimal(out, n as u64);
    }
}

/// The notice for an uploaded bundle, with `downloads` saying how often it
/// may be downloaded.
pub fn upload_notice(prefix: &str, link: &str, expires: i64, downloads: &str) -> (text: String)
    ensures
        text@ == notice_of(prefix@, link@, expires, downloads@),
{
    let mut text = String::from_str(prefix);
    text.append("\nDownload archive at ");
    text.append(link);
    text.append("\nFile will expire <t:");
    push_signed(&mut text, expires);
    text.append(":R>, or after ");
    text.append(downloads);
    assert(text@ =~= notice_of(prefix@, link@, expires, downloads@));
    text
}

/// Words a number of downloads with `pluralizer::pluralize`, the count
/// included. Trusted, and nothing is claimed of the wording: the rules by
/// which the outside crate inflects can be extended while a program runs.
#[verifier::external_body]
fn downloads_phrase(count: i64) -> (phrase: String) {
    pluralizer::pluralize("downloads", count as isize, true)
}

/// The notice for an uploaded bundle that may be downloaded
/// `max_downloads` times.
pub fn upload_notice_for(prefix: &str, link: &str, expires: i64, max_downloads: i64) -> (text:
    String)
    ensures
        exists|downloads: Seq<char>| text@ == #[trigger] notice_of(
            prefix@,
            link@,
            expires,
            downloads,
        ),
{
    let phrase = downloads_phrase(max_downloads);
    upload_notice(prefix, link, expires, phrase.as_str())
}

} // verus!
