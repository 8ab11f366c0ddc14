//! Entries that come from a filesystem: their names in the archive, their
//! kinds and their MIME types.

use vstd::prelude::*;
use vstd::string::StringSliceAdditionalSpecFns;
use std::path::Path;
use crate::create::entry_store_creator::EntryStoreCreator;
use crate::create::{record_of, EntryKind, EntryKindView, EntryTrait, Void};
use crate::entry::ContentAddress;
use crate::error::CreatorError;
use crate::text::contains_run;

verus! {

/// The MIME type that the extension of `path` suggests, as the table of the
/// `mime_guess` crate has it.
pub uninterp spec fn guessed_mime(path: Seq<char>) -> Option<Seq<char>>;

/// Guesses a MIME type from the extension of `path`.
///
/// Calls `mime_guess::from_path(..).first()`, which reads nothing but the
/// path. The contract only names the outcome.
#[verifier::external_body]
fn guess_mime(path: &str) -> (mimetype: Option<String>)
    ensures
        mimetype is Some <==> guessed_mime(path@) is Some,
        mimetype matches Some(m) ==> guessed_mime(path@) == Some(m@),
{
    mime_guess::from_path(path).first().map(|mime| mime.as_ref().to_owned())
}

/// What is left of the path `path` once the path `prefix` is taken from its
/// front, or `None` where `prefix` does not lead `path`: the outcome of
/// `Path::strip_prefix`, which goes by whole components.
pub uninterp spec fn stripped_path(path: Seq<char>, prefix: Seq<char>) -> Option<Seq<char>>;

/// Takes a prefix from the front of a path.
///
/// Calls `Path::strip_prefix` on the two texts read as paths. The contract
/// only names the outcome.
#[verifier::external_body]
fn strip_path_prefix(path: &str, prefix: &str) -> (rest: Option<String>)
    ensures
        rest is Some <==> stripped_path(path@, prefix@) is Some,
        rest matches Some(r) ==> stripped_path(path@, prefix@) == Some(r@),
{
    Path::new(path).strip_prefix(prefix).ok()?.to_str().map(str::to_owned)
}

/// How many bytes of a file of `size` bytes are looked at to tell its type.
pub fn sniff_size(size: u64) -> (n: usize)
    ensures
        n == if size < 100 {
            size as int
        } else {
            100
        },
{
    if size < 100 {
        size as usize
    } else {
        100
    }
}

/// The bytes of the word that gives a page away.
pub open spec fn html_word() -> Seq<u8> {
    seq![0x68u8, 0x74u8, 0x6du8, 0x6cu8]
}

/// Whether the first hundred bytes of a file hold `html`.
pub open spec fn looks_like_html(head: Seq<u8>) -> bool {
    contains_run(
        if head.len() <= 100 {
            head
        } else {
            head.take(100)
        },
        html_word(),
    )
}

/// Whether `head` holds `html` within its first hundred bytes.
pub fn sniff_html(head: &[u8]) -> (found: bool)
    ensures
        found == looks_like_html(head@),
{
    let end: usize = if head.len() <= 100 {
        head.len()
    } else {
        100
    };
    let ghost looked = if head.len() <= 100 {
        head@
    } else {
        head@.take(100)
    };
    if end < 4 {
        return false;
    }
    let mut i: usize = 0;
    while i <= end - 4
        invariant
            4 <= end <= head.len(),
            end <= 100,
            looked == (if head.len() <= 100 {
                head@
            } else {
                head@.take(100)
            }),
            looked.len() == end,
            forall|k: int| 0 <= k < end ==> looked[k] == head@[k],
            forall|k: int| 0 <= k < i ==> #[trigger] looked.subrange(k, k + 4) != html_word(),
        decreases end - i,
    {
        if head[i] == 0x68 && head[i + 1] == 0x74 && head[i + 2] == 0x6d && head[i + 3] == 0x6c {
            assert(looked.subrange(i as int, i + 4) =~= html_word());
            assert(contains_run(looked, html_word()));
            return true;
        }
        assert(looked.subrange(i as int, i + 4) != html_word()) by {
            let w = looked.subrange(i as int, i + 4);
            if w == html_word() {
                assert(w[0] == 0x68 && w[1] == 0x74 && w[2] == 0x6d && w[3] == 0x6c);
            }
        }
        i += 1;
    }
    false
}

/// The MIME type recorded for a file: what its extension suggests, or else
/// `text/html` if it looks like a page and `application/octet-stream` if
/// not.
pub open spec fn detected_mime(path: Seq<char>, head: Seq<u8>) -> Seq<char> {
    match guessed_mime(path) {
        Some(mimetype) => mimetype,
        None => sniffed_mime(head),
    }
}

/// The MIME type that the first bytes of a file give away.
pub open spec fn sniffed_mime(head: Seq<u8>) -> Seq<char> {
    if looks_like_html(head) {
        "text/html"@
    } else {
        "application/octet-stream"@
    }
}

/// The MIME type that the extension of `path` suggests.
pub fn mime_from_path(path: &str) -> (mimetype: Option<String>)
    ensures
        mimetype is Some <==> guessed_mime(path@) is Some,
        mimetype matches Some(m) ==> guessed_mime(path@) == Some(m@),
{
    guess_mime(path)
}

/// The MIME type that the first bytes of a file give away.
pub fn mime_from_head(head: &[u8]) -> (mimetype: String)
    ensures
        mimetype@ == sniffed_mime(head@),
{
    if sniff_html(head) {
        String::from_str("text/html")
    } else {
        String::from_str("application/octet-stream")
    }
}

/// The MIME type recorded for the file at `path` whose first bytes are
/// `head`.
pub fn detect_mime(path: &str, head: &[u8]) -> (mimetype: String)
    ensures
        mimetype@ == detected_mime(path@, head@),
{
    match mime_from_path(path) {
        Some(mimetype) => mimetype,
        None => mime_from_head(head),
    }
}

/// What a walk of the filesystem found at a path.
#[derive(Clone, Copy, Debug, PartialEq, Eq, Structural)]
pub enum FileType {
    File,
    Link,
    Other,
}

/// Tells the type of what a walk found from what its metadata says. A
/// regular file counts as a file whatever else is said of it.
pub fn file_type(is_file: bool, is_symlink: bool) -> (kind: FileType)
    ensures
        kind == if is_file {
            FileType::File
        } else if is_symlink {
            FileType::Link
        } else {
            FileType::Other
        },
{
    if is_file {
        FileType::File
    } else if is_symlink {
        FileType::Link
    } else {
        FileType::Other
    }
}

/// What a filesystem entry is, with what was learned of it.
#[derive(Debug)]
pub enum FsEntryKind {
    /// A regular file, its payload stored at this address, of this MIME
    /// type.
    File(ContentAddress, String),
    /// A symbolic link to `target`, which is or is not a directory.
    Link { target: String, to_directory: bool },
    /// Anything else.
    Other,
}

/// An entry found on the filesystem.
#[derive(Debug)]
pub struct FsEntry {
    pub kind: FsEntryKind,
    /// Where the entry was found.
    pub path: String,
    /// Under which name it is stored.
    pub name: String,
}

impl FsEntry {
    /// The entry for what a walk found at `path`, to be stored as `name`.
    pub fn new_from_walk_entry(path: String, name: String, kind: FsEntryKind) -> (entry: Self)
        ensures
            entry.kind == kind,
            entry.path == path,
            entry.name == name,
    {
        FsEntry { kind, path, name }
    }
}

impl FsEntry {
    /// What is stored for the entry. A file is stored as content. A link is
    /// stored as a redirect to its target unless that is a directory.
    /// Nothing else is stored.
    pub open spec fn stored_kind(&self) -> Option<EntryKindView> {
        match self.kind {
            FsEntryKind::File(content, mimetype) => Some(
                EntryKindView::Content(content, mimetype@),
            ),
            FsEntryKind::Link { target, to_directory } => if to_directory {
                None
            } else {
                Some(EntryKindView::Redirect(target@))
            },
            FsEntryKind::Other => None,
        }
    }

    /// Tells what is stored for the entry.
    pub fn entry_kind(&self) -> (kind: Option<EntryKind>)
        ensures
            kind is Some <==> self.stored_kind() is Some,
            kind matches Some(k) ==> self.stored_kind() == Some(k@),
    {
        match &self.kind {
            FsEntryKind::File(content, mimetype) => Some(
                EntryKind::Content(*content, mimetype.clone()),
            ),
            FsEntryKind::Link { target, to_directory } => if *to_directory {
                None
            } else {
                Some(EntryKind::Redirect(target.clone()))
            },
            FsEntryKind::Other => None,
        }
    }
}

impl EntryTrait for FsEntry {
    open spec fn obeys_entry_spec(&self) -> bool {
        true
    }

    /// Telling the kind of what a walk found never fails.
    open spec fn kind_spec(&self) -> Result<Option<EntryKindView>, Seq<char>> {
        Ok(self.stored_kind())
    }

    open spec fn name_spec(&self) -> Seq<char> {
        self.name@
    }

    fn kind(&self) -> (kind: Result<Option<EntryKind>, CreatorError>) {
        Ok(self.entry_kind())
    }

    fn name(&self) -> (name: String) {
        self.name.clone()
    }
}

/// What a namer returned, by its content.
pub open spec fn name_view(name: Option<String>) -> Option<Seq<char>> {
    match name {
        Some(n) => Some(n@),
        None => None,
    }
}

/// Gives filesystem paths their names in the archive.
///
/// A namer may say in `renamed` what `rename` returns, and vouch for that
/// by `obeys_renamed`. Of a namer that does not vouch, nothing is taken for
/// granted.
pub trait Namer {
    /// Whether `rename` returns what `renamed` says.
    open spec fn obeys_renamed(&self) -> bool {
        false
    }

    /// What `rename` returns for `path`, by its content.
    open spec fn renamed(&self, path: Seq<char>) -> Option<Seq<char>> {
        None
    }

    /// The name of `path` in the archive, or `None` for a path that this
    /// namer cannot name.
    fn rename(&self, path: &str) -> (name: Option<String>)
        ensures
            self.obeys_renamed() ==> name_view(name) == self.renamed(path@),
    ;
}

/// Names a path by what follows a fixed prefix.
pub struct StripPrefix {
    pub prefix: String,
}

impl StripPrefix {
    pub fn new(prefix: String) -> (namer: Self)
        ensures
            namer.prefix == prefix,
    {
        StripPrefix { prefix }
    }

    /// The name of `path`: what is left of it once the prefix is taken from
    /// its front. A path that the prefix does not lead has no name.
    pub fn strip(&self, path: &str) -> (name: Option<String>)
        ensures
            name is Some <==> stripped_path(path@, self.prefix@) is Some,
            name matches Some(n) ==> stripped_path(path@, self.prefix@) == Some(n@),
    {
        strip_path_prefix(path, self.prefix.as_str())
    }
}

impl Namer for StripPrefix {
    open spec fn obeys_renamed(&self) -> bool {
        true
    }

    /// A path is named by what follows the prefix.
    open spec fn renamed(&self, path: Seq<char>) -> Option<Seq<char>> {
        stripped_path(path, self.prefix@)
    }

    fn rename(&self, path: &str) -> (name: Option<String>) {
        self.strip(path)
    }
}

/// The name under which a path goes into the archive when a namer gave it
/// `named`: a path without name, and one whose name is empty, as that of
/// the root of a walk is, is left out.
pub open spec fn kept_name(named: Option<Seq<char>>) -> Option<Seq<char>> {
    match named {
        Some(name) => if name.len() > 0 {
            Some(name)
        } else {
            None
        },
        None => None,
    }
}

/// Decides under which name a path goes into the archive, given the name
/// that a namer gave it.
pub fn keep_name(named: Option<String>) -> (name: Option<String>)
    ensures
        name_view(name) == kept_name(name_view(named)),
{
    match named {
        Some(name) => if name.as_str().is_empty() {
            None
        } else {
            Some(name)
        },
        None => None,
    }
}

/// Adds filesystem entries to an entry store.
pub struct FsAdder<'a, N: Namer> {
    pub creator: &'a mut EntryStoreCreator,
    pub namer: &'a N,
}

impl<'a, N: Namer> FsAdder<'a, N> {
    pub fn new(creator: &'a mut EntryStoreCreator, namer: &'a N) -> (adder: Self)
        ensures
            *adder.creator == *old(creator),
            *final(adder.creator) == *final(creator),
            adder.namer == namer,
    {
        FsAdder { creator, namer }
    }

    /// Asks the namer for the name of `path` and decides by
    /// [`keep_name`] whether the path goes into the archive: it does under
    /// the name that the namer gives it, unless that is empty.
    pub fn name_of(&self, path: &str) -> (name: Option<String>)
        ensures
            name matches Some(n) ==> n@.len() > 0,
            self.namer.obeys_renamed() ==> name_view(name) == kept_name(
                self.namer.renamed(path@),
            ),
    {
        keep_name(self.namer.rename(path))
    }

    /// Adds what a walk found to the store.
    pub fn add_entry(&mut self, entry: &FsEntry) -> (done: Void)
        ensures
            done is Ok,
            final(self).creator@ == (match entry.stored_kind() {
                Some(kind) => old(self).creator@.push(record_of(entry.name@, kind)),
                None => old(self).creator@,
            }),
    {
        self.creator.add_entry(entry)
    }
}

} // verus!
