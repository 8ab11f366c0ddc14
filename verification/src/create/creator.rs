//! The creation of one archive from start to finish.

use vstd::prelude::*;
use vstd::utf8::encode_utf8;
use crate::create::entry::{entry_views, EntryView};
use crate::create::entry_store_creator::{has_path, EntryStore, EntryStoreCreator};
use crate::create::fs_adder::{FsAdder, Namer};
use crate::create::order::is_stable_sort_of;
use crate::create::{record_of, EntryKind, EntryKindView, EntryTrait, Void};
use crate::error::CreatorError;
use crate::url::index_page;
use crate::waj::ENTRIES_INDEX;

verus! {

/// A redirect that is declared rather than found.
pub struct Redirect {
    pub path: String,
    pub target: String,
}

impl EntryTrait for Redirect {
    open spec fn obeys_entry_spec(&self) -> bool {
        true
    }

    /// A declared redirect is always a redirect to its target.
    open spec fn kind_spec(&self) -> Result<Option<EntryKindView>, Seq<char>> {
        Ok(Some(EntryKindView::Redirect(self.target@)))
    }

    open spec fn name_spec(&self) -> Seq<char> {
        self.path@
    }

    fn kind(&self) -> (kind: Result<Option<EntryKind>, CreatorError>) {
        Ok(Some(EntryKind::Redirect(self.target.clone())))
    }

    fn name(&self) -> (name: String) {
        self.path.clone()
    }
}

/// How the entry at the root of an archive came about.
#[derive(Clone, Copy, Debug, PartialEq, Eq, Structural)]
pub enum MainEntry {
    /// It was asked for by name.
    Declared,
    /// None was asked for; `index.html` stands in.
    Implicit,
    /// There is none.
    Absent,
}

/// The record of the redirect from the root of the archive to `target`.
pub open spec fn root_redirect(target: Seq<char>) -> EntryView {
    record_of(Seq::empty(), EntryKindView::Redirect(target))
}

/// Creates an archive from what a filesystem holds.
pub struct FsCreator<N: Namer> {
    pub entry_store_creator: EntryStoreCreator,
    pub namer: N,
}

impl<N: Namer> FsCreator<N> {
    /// A creator without entries that names paths by `namer`.
    pub fn new(namer: N) -> (creator: Self)
        ensures
            creator.entry_store_creator@ == Seq::<EntryView>::empty(),
            creator.namer == namer,
    {
        FsCreator { entry_store_creator: EntryStoreCreator::new(None), namer }
    }

    /// An adder that fills this creator's store and names paths as the
    /// creator does.
    pub fn fs_adder(&mut self) -> (adder: FsAdder<'_, N>)
        ensures
            *adder.creator == old(self).entry_store_creator,
            *final(adder.creator) == final(self).entry_store_creator,
            adder.namer == &old(self).namer,
            final(self).namer == old(self).namer,
    {
        FsAdder::new(&mut self.entry_store_creator, &self.namer)
    }

    /// Adds a redirect from `path` to `target`.
    pub fn add_redirect(&mut self, path: &str, target: &str) -> (done: Void)
        ensures
            done is Ok,
            final(self).entry_store_creator@ == old(self).entry_store_creator@.push(
                record_of(path@, EntryKindView::Redirect(target@)),
            ),
            final(self).namer == old(self).namer,
    {
        let redirect = Redirect { path: String::from_str(path), target: String::from_str(target) };
        self.entry_store_creator.add_entry(&redirect)
    }

    /// Tells whether the archive holds an entry `index.html` at its root.
    pub fn has_index(&self) -> (found: bool)
        ensures
            found == has_path(self.entry_store_creator@, index_page()),
    {
        self.entry_store_creator.has_path("index.html".as_bytes())
    }

    /// Gives the archive its root entry: a redirect from the empty path to
    /// `main` where one is declared, else to `index.html` where the archive
    /// holds one, else none.
    pub fn add_main(&mut self, main: Option<&str>) -> (made: MainEntry)
        ensures
            final(self).namer == old(self).namer,
            match main {
                Some(target) => made == MainEntry::Declared && final(self).entry_store_creator@
                    == old(self).entry_store_creator@.push(root_redirect(target@)),
                None => if has_path(old(self).entry_store_creator@, index_page()) {
                    made == MainEntry::Implicit && final(self).entry_store_creator@ == old(
                        self,
                    ).entry_store_creator@.push(root_redirect("index.html"@))
                } else {
                    made == MainEntry::Absent && final(self).entry_store_creator@ == old(
                        self,
                    ).entry_store_creator@
                },
            },
    {
        match main {
            Some(target) => {
                let _ = self.add_redirect("", target);
                proof {
                    reveal_strlit("");
                    assert(""@ =~= Seq::<char>::empty());
                }
                MainEntry::Declared
            },
            None => {
                if self.has_index() {
                    let _ = self.add_redirect("", "index.html");
                    proof {
                        reveal_strlit("");
                        assert(""@ =~= Seq::<char>::empty());
                    }
                    MainEntry::Implicit
                } else {
                    MainEntry::Absent
                }
            },
        }
    }

    /// Closes the archive's entry store.
    pub fn finalize(self) -> (store: EntryStore)
        requires
            self.entry_store_creator@.len() <= u32::MAX,
        ensures
            is_stable_sort_of(entry_views(store.entries@), self.entry_store_creator@),
            store.index.name@ == ENTRIES_INDEX@,
            store.index.first_entry == 0,
            store.index.entry_count == self.entry_store_creator@.len(),
    {
        self.entry_store_creator.finalize()
    }
}

} // verus!
