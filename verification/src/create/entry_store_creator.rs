//! The entry store of an archive under construction.

use vstd::prelude::*;
use vstd::string::StringSliceAdditionalSpecFns;
use crate::create::entry::{entry_views, Entry, EntryView};
use crate::create::order::{is_stable_sort_of, sort_by_path};
use crate::create::{record_of, EntryKind, EntryTrait, Void};
use crate::properties::Property;
use crate::text::{bytes_equal, copy_bytes};
use crate::waj::ENTRIES_INDEX;

verus! {

/// The two value stores of a web archive.
#[derive(Clone, Copy, Debug, PartialEq, Eq, Structural)]
pub enum Store {
    /// Paths and redirect targets, stored one after the other.
    Path,
    /// MIME types, each stored once and referred to by number.
    Mime,
}

/// How one property of the schema is stored.
#[derive(Clone, Copy, Debug, PartialEq, Eq, Structural)]
pub enum PropertySchema {
    /// A byte string of which `inline` bytes stand in the record and the
    /// rest in `store`.
    Array { inline: u8, store: Store, name: Property },
    /// The address of a payload.
    ContentAddress { name: Property },
}

/// The schema of the entry store: the properties common to all records,
/// those of each variant, and the properties by which records are ordered.
#[derive(Debug)]
pub struct Schema {
    pub common: Vec<PropertySchema>,
    pub content: Vec<PropertySchema>,
    pub redirect: Vec<PropertySchema>,
    pub sort_keys: Vec<Property>,
}

/// The schema of a web archive. Every record has a path, whose first byte
/// stands in the record. A file has a MIME type and the address of its
/// payload, a redirect has a target. Records are ordered by path.
pub fn schema() -> (schema: Schema)
    ensures
        schema.common@ == seq![
            PropertySchema::Array { inline: 1, store: Store::Path, name: Property::Path },
        ],
        schema.content@ == seq![
            PropertySchema::Array { inline: 0, store: Store::Mime, name: Property::Mimetype },
            PropertySchema::ContentAddress { name: Property::Content },
        ],
        schema.redirect@ == seq![
            PropertySchema::Array { inline: 1, store: Store::Path, name: Property::Target },
        ],
        schema.sort_keys@ == seq![Property::Path],
{
    Schema {
        common: vec![PropertySchema::Array { inline: 1, store: Store::Path, name: Property::Path }],
        content: vec![
            PropertySchema::Array { inline: 0, store: Store::Mime, name: Property::Mimetype },
            PropertySchema::ContentAddress { name: Property::Content },
        ],
        redirect: vec![
            PropertySchema::Array { inline: 1, store: Store::Path, name: Property::Target },
        ],
        sort_keys: vec![Property::Path],
    }
}

/// Whether some record of `s` has the path `path`.
pub open spec fn has_path(s: Seq<EntryView>, path: Seq<u8>) -> bool {
    exists|i: int| 0 <= i < s.len() && (#[trigger] s[i]).path == path
}

/// Collects the records of an archive.
pub struct EntryStoreCreator {
    entry_store: Vec<Entry>,
}

/// The index declared over a finished entry store.
#[derive(Debug)]
pub struct Index {
    pub name: &'static str,
    pub first_entry: u32,
    pub entry_count: u32,
}

/// A finished entry store: its records in their final order and the index
/// that spans them.
#[derive(Debug)]
pub struct EntryStore {
    pub entries: Vec<Entry>,
    pub index: Index,
}

impl View for EntryStoreCreator {
    type V = Seq<EntryView>;

    closed spec fn view(&self) -> Seq<EntryView> {
        entry_views(self.entry_store@)
    }
}

impl EntryStoreCreator {
    /// An empty store. The hint says how many records to expect.
    pub fn new(size_hint: Option<usize>) -> (creator: Self)
        ensures
            creator@ == Seq::<EntryView>::empty(),
    {
        let entry_store = match size_hint {
            Some(n) => Vec::with_capacity(n),
            None => Vec::new(),
        };
        let creator = EntryStoreCreator { entry_store };
        assert(creator@ =~= Seq::<EntryView>::empty());
        creator
    }

    /// The number of records collected.
    pub fn len(&self) -> (n: usize)
        ensures
            n == self@.len(),
    {
        self.entry_store.len()
    }

    /// Tells whether a record with the path `path` was collected.
    pub fn has_path(&self, path: &[u8]) -> (found: bool)
        ensures
            found == has_path(self@, path@),
    {
        let mut i: usize = 0;
        while i < self.entry_store.len()
            invariant
                i <= self.entry_store.len(),
                forall|k: int| 0 <= k < i ==> (#[trigger] self@[k]).path != path@,
            decreases self.entry_store.len() - i,
        {
            if bytes_equal(self.entry_store[i].path.as_slice(), path) {
                assert(self@[i as int].path == path@);
                return true;
            }
            i += 1;
        }
        false
    }

    /// Appends the record of an entry called `name` of kind `kind`; nothing
    /// where there is no kind.
    pub fn add_kind(&mut self, name: &str, kind: Option<EntryKind>)
        ensures
            final(self)@ == (match kind {
                Some(k) => old(self)@.push(record_of(name@, k@)),
                None => old(self)@,
            }),
    {
        let kind = match kind {
            Some(kind) => kind,
            None => {
                return ;
            },
        };
        let path = copy_bytes(name.as_bytes());
        let entry = match kind {
            EntryKind::Content(content_address, mimetype) => Entry::new_content(
                path,
                copy_bytes(mimetype.as_str().as_bytes()),
                content_address,
            ),
            EntryKind::Redirect(target) => Entry::new_redirect(
                path,
                copy_bytes(target.as_str().as_bytes()),
            ),
        };
        self.entry_store.push(entry);
        assert(self@ =~= old(self)@.push(record_of(name@, kind@)));
    }

    /// Asks `entry` for its kind and, if it has one, for its name, and
    /// appends the record that [`EntryStoreCreator::add_kind`] makes of
    /// them. A source without kind is passed over. A source that fails
    /// leaves the store as it was and its error is handed on.
    pub fn add_entry<E: EntryTrait>(&mut self, entry: &E) -> (done: Void)
        ensures
            done is Err ==> final(self)@ == old(self)@,
            done is Ok ==> final(self)@ == old(self)@ || (final(self)@.len() == old(self)@.len()
                + 1 && final(self)@.drop_last() == old(self)@),
            entry.obeys_entry_spec() ==> (match entry.kind_spec() {
                Ok(Some(kind)) => done is Ok && final(self)@ == old(self)@.push(
                    record_of(entry.name_spec(), kind),
                ),
                Ok(None) => done is Ok && final(self)@ == old(self)@,
                Err(report) => done is Err && done->Err_0.message_spec() == report,
            }),
    {
        let kind = match entry.kind() {
            Ok(kind) => kind,
            Err(e) => {
                return Err(e);
            },
        };
        match kind {
            None => {},
            Some(kind) => {
                let name = entry.name();
                self.add_kind(name.as_str(), Some(kind));
                assert(self@.drop_last() =~= old(self)@);
            },
        }
        Ok(())
    }

    /// Closes the store: its records are sorted by path, those with the
    /// same path staying in the order in which they came, and one index,
    /// `waj_entries`, is declared over all of them.
    pub fn finalize(self) -> (store: EntryStore)
        requires
            self@.len() <= u32::MAX,
        ensures
            is_stable_sort_of(entry_views(store.entries@), self@),
            store.index.name@ == ENTRIES_INDEX@,
            store.index.first_entry == 0,
            store.index.entry_count == self@.len(),
    {
        let entry_count = self.entry_store.len();
        let entries = sort_by_path(self.entry_store);
        EntryStore {
            entries,
            index: Index { name: ENTRIES_INDEX, first_entry: 0, entry_count: entry_count as u32 },
        }
    }
}

} // verus!
