//! Building an archive: collecting entries, naming them, detecting their
//! types and laying out the result.

pub mod content;
pub mod creator;
pub mod entry;
pub mod entry_store_creator;
pub mod fs_adder;
pub mod laws;
pub mod order;
pub mod output;

use vstd::prelude::*;
use vstd::utf8::encode_utf8;
use crate::create::entry::{EntryView, KindView};
use crate::entry::ContentAddress;
use crate::error::CreatorError;

verus! {

/// What a source has to say of one entry to be.
#[derive(Debug)]
pub enum EntryKind {
    /// A file: the address of its payload and its MIME type.
    Content(ContentAddress, String),
    /// A redirect to this path.
    Redirect(String),
}

/// The mathematical content of an [`EntryKind`].
pub enum EntryKindView {
    Content(ContentAddress, Seq<char>),
    Redirect(Seq<char>),
}

impl View for EntryKind {
    type V = EntryKindView;

    open spec fn view(&self) -> EntryKindView {
        match self {
            EntryKind::Content(address, mimetype) => EntryKindView::Content(*address, mimetype@),
            EntryKind::Redirect(target) => EntryKindView::Redirect(target@),
        }
    }
}

/// The outcome of creation steps that yield nothing.
pub type Void = Result<(), CreatorError>;

/// The record stored for an entry called `name` of kind `kind`. Text is
/// stored as its UTF-8 bytes.
pub open spec fn record_of(name: Seq<char>, kind: EntryKindView) -> EntryView {
    EntryView {
        path: encode_utf8(name),
        kind: match kind {
            EntryKindView::Content(content, mimetype) => KindView::Content {
                mimetype: encode_utf8(mimetype),
                content,
            },
            EntryKindView::Redirect(target) => KindView::Redirect { target: encode_utf8(target) },
        },
    }
}

/// What [`EntryTrait::kind`] returned, by its content: the kind, `None` for
/// a source that is no entry, or the report of the failure.
pub open spec fn kind_view(kind: Result<Option<EntryKind>, CreatorError>) -> Result<
    Option<EntryKindView>,
    Seq<char>,
> {
    match kind {
        Ok(Some(k)) => Ok(Some(k@)),
        Ok(None) => Ok(None),
        Err(e) => Err(e.message_spec()),
    }
}

/// A source of one entry.
///
/// A source may say in `kind_spec` and `name_spec` what its two methods
/// return, and vouch for that by `obeys_entry_spec`. Of a source that does
/// not vouch, nothing is taken for granted.
pub trait EntryTrait {
    /// Whether `kind` and `name` return what `kind_spec` and `name_spec`
    /// say.
    open spec fn obeys_entry_spec(&self) -> bool {
        false
    }

    /// What `kind` returns, by its content.
    open spec fn kind_spec(&self) -> Result<Option<EntryKindView>, Seq<char>> {
        Ok(None)
    }

    /// What `name` returns.
    open spec fn name_spec(&self) -> Seq<char> {
        Seq::empty()
    }

    /// The kind of the entry, or `None` if the source is not to be stored.
    fn kind(&self) -> (kind: Result<Option<EntryKind>, CreatorError>)
        ensures
            self.obeys_entry_spec() ==> kind_view(kind) == self.kind_spec(),
    ;

    /// The name under which the entry is stored.
    fn name(&self) -> (name: String)
        ensures
            self.obeys_entry_spec() ==> name@ == self.name_spec(),
    ;
}

} // verus!
