//! The records that an archive under construction collects.

use vstd::prelude::*;
use crate::entry::{ContentAddress, EntryType};
use crate::properties::Property;
use crate::text::copy_bytes;

verus! {

/// What a file entry records besides its path.
#[derive(Debug)]
pub struct Content {
    pub mimetype: Vec<u8>,
    pub content: ContentAddress,
}

/// What an entry records besides its path.
#[derive(Debug)]
pub enum EntryKind {
    Content(Content),
    Redirect(Vec<u8>),
}

/// One record of the entry store.
#[derive(Debug)]
pub struct Entry {
    pub path: Vec<u8>,
    pub kind: EntryKind,
}

/// The mathematical content of an [`EntryKind`].
pub enum KindView {
    Content { mimetype: Seq<u8>, content: ContentAddress },
    Redirect { target: Seq<u8> },
}

/// The mathematical content of an [`Entry`].
pub struct EntryView {
    pub path: Seq<u8>,
    pub kind: KindView,
}

impl View for EntryKind {
    type V = KindView;

    open spec fn view(&self) -> KindView {
        match self {
            EntryKind::Content(c) => KindView::Content { mimetype: c.mimetype@, content: c.content },
            EntryKind::Redirect(target) => KindView::Redirect { target: target@ },
        }
    }
}

impl View for Entry {
    type V = EntryView;

    open spec fn view(&self) -> EntryView {
        EntryView { path: self.path@, kind: self.kind@ }
    }
}

/// The records of a store, each by its content.
pub open spec fn entry_views(entries: Seq<Entry>) -> Seq<EntryView> {
    Seq::new(entries.len(), |i: int| entries[i]@)
}

/// A value of one property of a record.
#[derive(Debug)]
pub enum Value {
    Array(Vec<u8>),
    Content(ContentAddress),
}

/// The mathematical content of a [`Value`].
pub enum ValueView {
    Array(Seq<u8>),
    Content(ContentAddress),
}

impl View for Value {
    type V = ValueView;

    open spec fn view(&self) -> ValueView {
        match self {
            Value::Array(bytes) => ValueView::Array(bytes@),
            Value::Content(address) => ValueView::Content(*address),
        }
    }
}

impl EntryView {
    /// The kind of the record.
    pub open spec fn entry_type(self) -> EntryType {
        match self.kind {
            KindView::Content { .. } => EntryType::Content,
            KindView::Redirect { .. } => EntryType::Redirect,
        }
    }

    /// Whether records of this kind have the property `name`.
    pub open spec fn has_property(self, name: Property) -> bool {
        match name {
            Property::Path => true,
            Property::Mimetype => self.kind is Content,
            Property::Content => self.kind is Content,
            Property::Target => self.kind is Redirect,
        }
    }

    /// The value of property `name`.
    pub open spec fn value(self, name: Property) -> ValueView
        recommends
            self.has_property(name),
    {
        match name {
            Property::Path => ValueView::Array(self.path),
            Property::Mimetype => ValueView::Array(self.kind->mimetype),
            Property::Content => ValueView::Content(self.kind->content),
            Property::Target => ValueView::Array(self.kind->target),
        }
    }
}

impl Entry {
    /// A record for a file at `path`.
    pub fn new_content(path: Vec<u8>, mimetype: Vec<u8>, content: ContentAddress) -> (entry: Self)
        ensures
            entry@ == (EntryView {
                path: path@,
                kind: KindView::Content { mimetype: mimetype@, content },
            }),
    {
        Entry { path, kind: EntryKind::Content(Content { mimetype, content }) }
    }

    /// A record for a redirect from `path` to `target`.
    pub fn new_redirect(path: Vec<u8>, target: Vec<u8>) -> (entry: Self)
        ensures
            entry@ == (EntryView { path: path@, kind: KindView::Redirect { target: target@ } }),
    {
        Entry { path, kind: EntryKind::Redirect(target) }
    }

    /// The variant under which the record is stored.
    pub fn variant_name(&self) -> (variant: Option<EntryType>)
        ensures
            variant == Some(self@.entry_type()),
    {
        Some(
            match self.kind {
                EntryKind::Content(_) => EntryType::Content,
                EntryKind::Redirect(_) => EntryType::Redirect,
            },
        )
    }

    /// How many properties the record has: its path and those of its kind.
    pub fn value_count(&self) -> (count: u8)
        ensures
            count == (match self@.kind {
                KindView::Content { .. } => 3u8,
                KindView::Redirect { .. } => 2u8,
            }),
    {
        match self.kind {
            EntryKind::Content(_) => 3,
            EntryKind::Redirect(_) => 2,
        }
    }

    /// The value of property `name`, which the record's kind must have.
    pub fn value(&self, name: &Property) -> (value: Value)
        requires
            self@.has_property(*name),
        ensures
            value@ == self@.value(*name),
    {
        match &self.kind {
            EntryKind::Content(content) => match name {
                Property::Content => Value::Content(content.content),
                Property::Mimetype => Value::Array(copy_bytes(content.mimetype.as_slice())),
                _ => Value::Array(copy_bytes(self.path.as_slice())),
            },
            EntryKind::Redirect(target) => match name {
                Property::Target => Value::Array(copy_bytes(target.as_slice())),
                _ => Value::Array(copy_bytes(self.path.as_slice())),
            },
        }
    }
}

} // verus!
