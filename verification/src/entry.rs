//! The entries of an archive as a reader sees them.

use vstd::prelude::*;
use crate::error::WajFormatError;

verus! {

/// The two kinds of entry, in the order of their variant tags.
#[derive(Clone, Copy, Debug, PartialEq, Eq, Structural)]
pub enum EntryType {
    Content,
    Redirect,
}

impl EntryType {
    /// The tag under which the kind is stored in an entry record.
    pub open spec fn tag(self) -> u8 {
        match self {
            EntryType::Content => 0,
            EntryType::Redirect => 1,
        }
    }

    /// The kind that the variant tag `id` stands for. Only 0 and 1 are tags
    /// of a web archive.
    pub fn try_from(id: u8) -> (kind: Result<EntryType, WajFormatError>)
        ensures
            id <= 1 <==> kind is Ok,
            kind matches Ok(k) ==> k.tag() == id,
            kind matches Err(e) ==> e.0@ == "Invalid variant id"@,
    {
        if id == 0 {
            Ok(EntryType::Content)
        } else if id == 1 {
            Ok(EntryType::Redirect)
        } else {
            Err(WajFormatError("Invalid variant id"))
        }
    }

    /// The variant tag of the kind.
    pub fn variant_idx(self) -> (id: u8)
        ensures
            id == self.tag(),
    {
        match self {
            EntryType::Content => 0,
            EntryType::Redirect => 1,
        }
    }

    pub open spec fn name_spec(self) -> Seq<char> {
        match self {
            EntryType::Content => "content"@,
            EntryType::Redirect => "redirect"@,
        }
    }

    /// The name of the variant in the archive's schema.
    pub fn name(self) -> (name: &'static str)
        ensures
            name@ == self.name_spec(),
    {
        match self {
            EntryType::Content => "content",
            EntryType::Redirect => "redirect",
        }
    }
}

/// Where a payload lives: a pack of the archive and a blob in that pack.
#[derive(Clone, Copy, Debug, PartialEq, Eq, Structural)]
pub struct ContentAddress {
    pub pack_id: u8,
    pub content_id: u32,
}

impl ContentAddress {
    pub fn new(pack_id: u8, content_id: u32) -> (address: Self)
        ensures
            address == (ContentAddress { pack_id, content_id }),
    {
        ContentAddress { pack_id, content_id }
    }
}

/// What every entry has: its place in the index and its path.
pub struct CommonPart {
    pub idx: usize,
    pub path: Vec<u8>,
}

/// Access to the common part of an entry.
pub trait CommonEntry {
    spec fn common_spec(&self) -> CommonPart;

    fn common(&self) -> (part: &CommonPart)
        ensures
            *part == self.common_spec(),
    ;

    /// The position of the entry in the archive's index.
    fn idx(&self) -> (idx: usize)
        ensures
            idx == self.common_spec().idx,
    {
        self.common().idx
    }

    /// The path of the entry, without a leading `/`.
    fn path(&self) -> (path: &[u8])
        ensures
            path@ == self.common_spec().path@,
    {
        self.common().path.as_slice()
    }
}

/// A file of the archive.
pub struct Content {
    pub common: CommonPart,
    pub mimetype: Vec<u8>,
    pub content: ContentAddress,
}

impl CommonEntry for Content {
    open spec fn common_spec(&self) -> CommonPart {
        self.common
    }

    fn common(&self) -> (part: &CommonPart) {
        &self.common
    }
}

impl Content {
    /// The address of the file's payload.
    pub fn content(&self) -> (address: ContentAddress)
        ensures
            address == self.content,
    {
        self.content
    }

    /// The file's MIME type.
    pub fn mimetype(&self) -> (mimetype: &[u8])
        ensures
            mimetype@ == self.mimetype@,
    {
        self.mimetype.as_slice()
    }
}

/// An entry that sends the reader elsewhere.
pub struct Redirect {
    pub common: CommonPart,
    pub target: Vec<u8>,
}

impl CommonEntry for Redirect {
    open spec fn common_spec(&self) -> CommonPart {
        self.common
    }

    fn common(&self) -> (part: &CommonPart) {
        &self.common
    }
}

impl Redirect {
    /// The path that the entry redirects to.
    pub fn target(&self) -> (target: &[u8])
        ensures
            target@ == self.target@,
    {
        self.target.as_slice()
    }
}

/// An entry of the archive.
pub enum Entry {
    Content(Content),
    Redirect(Redirect),
}

impl Entry {
    /// The kind of the entry.
    pub fn entry_type(&self) -> (kind: EntryType)
        ensures
            kind == (match self {
                Entry::Content(_) => EntryType::Content,
                Entry::Redirect(_) => EntryType::Redirect,
            }),
    {
        match self {
            Entry::Content(_) => EntryType::Content,
            Entry::Redirect(_) => EntryType::Redirect,
        }
    }
}

} // verus!
