//! An opened archive: its entries in index order, and lookup by path.

use vstd::prelude::*;
use vstd::string::StringSliceAdditionalSpecFns;
use crate::create::entry::{entry_views, Entry as Record, EntryKind, EntryView, KindView};
use crate::create::order::sorted_by_path;
use crate::entry::{CommonPart, Content, Entry, Redirect};
use crate::error::{WajError, WajFormatError};
use crate::text::{
    compare_bytes, copy_bytes, lemma_lex_equal, lemma_lex_flip, lemma_lex_transitive, lex_order,
    Order,
};

verus! {

/// The name of the index that spans all entries of a web archive.
pub const ENTRIES_INDEX: &'static str = "waj_entries";

/// The entries of an archive, in the order of its index.
pub struct Waj {
    entries: Vec<Record>,
}

/// The records of `s` before position `i` all have a path other than `path`.
pub open spec fn absent_before(s: Seq<EntryView>, path: Seq<u8>, i: int) -> bool {
    forall|k: int| 0 <= k < i && k < s.len() ==> (#[trigger] s[k]).path != path
}

/// Where a lookup of `path` in `s` ends: at the first record with that path,
/// or nowhere.
pub open spec fn found_at(s: Seq<EntryView>, path: Seq<u8>, at: Option<usize>) -> bool {
    match at {
        Some(i) => i < s.len() && s[i as int].path == path && absent_before(s, path, i as int),
        None => absent_before(s, path, s.len() as int),
    }
}

/// The position at which a lookup of `path` in `s` ends.
pub open spec fn position_of(s: Seq<EntryView>, path: Seq<u8>) -> Option<usize> {
    if exists|i: usize| found_at(s, path, Some(i)) {
        Some(choose|i: usize| found_at(s, path, Some(i)))
    } else {
        None
    }
}

/// A lookup has one outcome only.
pub proof fn lemma_position_of(s: Seq<EntryView>, path: Seq<u8>, at: Option<usize>)
    requires
        found_at(s, path, at),
    ensures
        position_of(s, path) == at,
{
    match at {
        Some(i) => {
            let j = choose|j: usize| found_at(s, path, Some(j));
            assert(found_at(s, path, Some(j)));
            if j < i {
                assert(s[j as int].path == path);
            }
            if i < j {
                assert(s[i as int].path == path);
            }
        },
        None => {
            if exists|i: usize| found_at(s, path, Some(i)) {
                let j = choose|j: usize| found_at(s, path, Some(j));
                assert(s[j as int].path == path);
            }
        },
    }
}

/// The entry that a reader gets for the record at position `idx`.
pub open spec fn entry_of(record: EntryView, idx: usize, entry: Entry) -> bool {
    match record.kind {
        KindView::Content { mimetype, content } => {
            &&& entry matches Entry::Content(c)
            &&& c.common.idx == idx
            &&& c.common.path@ == record.path
            &&& c.mimetype@ == mimetype
            &&& c.content == content
        },
        KindView::Redirect { target } => {
            &&& entry matches Entry::Redirect(r)
            &&& r.common.idx == idx
            &&& r.common.path@ == record.path
            &&& r.target@ == target
        },
    }
}

/// Compares the paths of an archive's entries with a path looked for.
pub struct Comparator<'a> {
    pub store: &'a Waj,
}

impl<'a> Comparator<'a> {
    pub fn new(store: &'a Waj) -> (comparator: Self)
        ensures
            comparator.store == store,
    {
        Comparator { store }
    }

    /// The comparison of entries with `component`.
    pub fn compare_with(&'a self, component: &'a [u8]) -> (compare: EntryCompare<'a>)
        ensures
            compare.comparator == self,
            compare.path_value == component,
    {
        EntryCompare { comparator: self, path_value: component }
    }
}

/// Compares the paths of an archive's entries with one path.
pub struct EntryCompare<'a> {
    pub comparator: &'a Comparator<'a>,
    pub path_value: &'a [u8],
}

impl<'a> EntryCompare<'a> {
    /// How the path of the entry at `idx` compares to the path looked for.
    pub fn compare_entry(&self, idx: usize) -> (order: Order)
        requires
            idx < self.comparator.store@.len(),
        ensures
            order == lex_order(self.comparator.store@[idx as int].path, self.path_value@),
    {
        self.comparator.store.compare_entry(idx, self.path_value)
    }

    /// The entries come in the order by which this comparison goes, so a
    /// search may bisect.
    pub fn ordered(&self) -> (ordered: bool)
        ensures
            ordered,
    {
        true
    }
}

/// The report of a lookup that found nothing.
pub open spec fn not_found_report(path: Seq<char>) -> Seq<char> {
    "Cannot found entry "@ + path
}

impl View for Waj {
    type V = Seq<EntryView>;

    closed spec fn view(&self) -> Seq<EntryView> {
        entry_views(self.entries@)
    }
}

impl Waj {
    /// The index is ordered by path.
    pub closed spec fn wf(&self) -> bool {
        sorted_by_path(entry_views(self.entries@))
    }

    /// The archive whose index lists `entries`. The index of a web archive is
    /// ordered by path; one that is not is refused.
    pub fn new(entries: Vec<Record>) -> (waj: Result<Waj, WajError>)
        ensures
            waj is Ok <==> sorted_by_path(entry_views(entries@)),
            waj matches Ok(w) ==> w.wf() && w@ == entry_views(entries@),
            waj matches Err(e) ==> e matches WajError::BaseError(
                crate::error::BaseError::WajFormatError(f),
            ) && f.0@ == "Entries are not sorted by path"@,
    {
        let ghost s = entry_views(entries@);
        if entries.len() > 0 {
            let mut i: usize = 1;
            proof {
                lemma_lex_flip(s[0].path, s[0].path);
            }
            while i < entries.len()
                invariant
                    1 <= i <= entries.len(),
                    s == entry_views(entries@),
                    forall|a: int, b: int|
                        0 <= a <= b < i ==> crate::text::lex_le(
                            #[trigger] s[a].path,
                            #[trigger] s[b].path,
                        ),
                decreases entries.len() - i,
            {
                let order = compare_bytes(
                    entries[i - 1].path.as_slice(),
                    entries[i].path.as_slice(),
                );
                if order == Order::Greater {
                    assert(!crate::text::lex_le(s[i - 1].path, s[i as int].path));
                    return Err(
                        WajError::BaseError(
                            crate::error::BaseError::WajFormatError(
                                WajFormatError("Entries are not sorted by path"),
                            ),
                        ),
                    );
                }
                proof {
                    lemma_lex_flip(s[i as int].path, s[i as int].path);
                    assert forall|a: int, b: int| 0 <= a <= b < i + 1 implies crate::text::lex_le(
                        #[trigger] s[a].path,
                        #[trigger] s[b].path,
                    ) by {
                        if b == i && a < i {
                            lemma_lex_transitive(s[a].path, s[i - 1].path, s[i as int].path);
                        }
                    }
                }
                i += 1;
            }
        }
        Ok(Waj { entries })
    }

    /// The number of entries.
    pub fn len(&self) -> (n: usize)
        ensures
            n == self@.len(),
    {
        self.entries.len()
    }

    /// The index is non-decreasing by path.
    pub proof fn lemma_sorted(&self)
        requires
            self.wf(),
        ensures
            sorted_by_path(self@),
    {
    }

    /// The record at position `idx` of the index.
    pub fn record(&self, idx: usize) -> (record: Option<&Record>)
        ensures
            idx < self@.len() <==> record is Some,
            record matches Some(r) ==> r@ == self@[idx as int],
    {
        if idx < self.entries.len() {
            Some(&self.entries[idx])
        } else {
            None
        }
    }

    /// How the path of the record at `idx` compares to `target`.
    pub fn compare_entry(&self, idx: usize, target: &[u8]) -> (order: Order)
        requires
            idx < self@.len(),
        ensures
            order == lex_order(self@[idx as int].path, target@),
    {
        compare_bytes(self.entries[idx].path.as_slice(), target)
    }

    /// Searches the index for `target` by bisection. Where several entries
    /// have that path, the first of them is found.
    pub fn find(&self, target: &[u8]) -> (at: Option<usize>)
        requires
            self.wf(),
        ensures
            found_at(self@, target@, at),
            at == position_of(self@, target@),
    {
        let ghost s = self@;
        let mut left: usize = 0;
        let mut right: usize = self.entries.len();
        let mut found: Option<usize> = None;
        while left < right
            invariant
                self.wf(),
                s == self@,
                s.len() == self.entries.len(),
                left <= right <= s.len(),
                forall|k: int| 0 <= k < left ==> lex_order((#[trigger] s[k]).path, target@) == Order::Less,
                found matches Some(f) ==> f == right && f < s.len() && s[f as int].path
                    == target@,
                found is None ==> forall|k: int|
                    right <= k < s.len() ==> lex_order((#[trigger] s[k]).path, target@)
                        == Order::Greater,
            decreases right - left,
        {
            let mid = left + (right - left) / 2;
            let order = self.compare_entry(mid, target);
            proof {
                lemma_lex_equal(s[mid as int].path, target@);
            }
            match order {
                Order::Less => {
                    proof {
                        assert forall|k: int| 0 <= k < mid + 1 implies lex_order(
                            (#[trigger] s[k]).path,
                            target@,
                        ) == Order::Less by {
                            if left <= k {
                                assert(crate::text::lex_le(s[k].path, s[mid as int].path));
                                lemma_lex_transitive(s[k].path, s[mid as int].path, target@);
                            }
                        }
                    }
                    left = mid + 1;
                },
                Order::Greater => {
                    proof {
                        if found is Some {
                            // A record equal to the target would lie at `right`, after
                            // one that is greater: the order of the index rules it out.
                            assert(crate::text::lex_le(s[mid as int].path, s[right as int].path));
                            lemma_lex_flip(target@, s[mid as int].path);
                        }
                        assert forall|k: int| mid <= k < s.len() implies lex_order(
                            (#[trigger] s[k]).path,
                            target@,
                        ) == Order::Greater by {
                            assert(crate::text::lex_le(s[mid as int].path, s[k].path));
                            lemma_lex_flip(target@, s[mid as int].path);
                            lemma_lex_transitive(target@, s[mid as int].path, s[k].path);
                            lemma_lex_flip(target@, s[k].path);
                        }
                    }
                    right = mid;
                },
                Order::Equal => {
                    found = Some(mid);
                    right = mid;
                },
            }
        }
        proof {
            assert forall|k: int| 0 <= k < left implies (#[trigger] s[k]).path != target@ by {
                lemma_lex_equal(s[k].path, target@);
            }
            if found is None {
                assert forall|k: int| 0 <= k < s.len() implies (#[trigger] s[k]).path
                    != target@ by {
                    lemma_lex_equal(s[k].path, target@);
                }
            }
            lemma_position_of(s, target@, found);
        }
        found
    }

    /// The entry at position `idx` of the index, as a reader sees it.
    pub fn entry_at(&self, idx: usize) -> (entry: Option<Entry>)
        ensures
            idx < self@.len() <==> entry is Some,
            entry matches Some(e) ==> entry_of(self@[idx as int], idx, e),
    {
        if idx >= self.entries.len() {
            return None;
        }
        let record = &self.entries[idx];
        let common = CommonPart { idx, path: copy_bytes(record.path.as_slice()) };
        Some(
            match &record.kind {
                EntryKind::Content(content) => Entry::Content(
                    Content {
                        common,
                        mimetype: copy_bytes(content.mimetype.as_slice()),
                        content: content.content,
                    },
                ),
                EntryKind::Redirect(target) => Entry::Redirect(
                    Redirect { common, target: copy_bytes(target.as_slice()) },
                ),
            },
        )
    }

    /// The entry stored under the bytes `path`, if there is one.
    pub fn lookup(&self, path: &[u8]) -> (entry: Option<Entry>)
        requires
            self.wf(),
        ensures
            entry is Some <==> position_of(self@, path@) is Some,
            entry matches Some(e) ==> entry_of(
                self@[position_of(self@, path@)->0 as int],
                position_of(self@, path@)->0,
                e,
            ),
    {
        match self.find(path) {
            None => None,
            Some(idx) => self.entry_at(idx),
        }
    }

    /// The entry stored under `path`.
    pub fn get_entry(&self, path: &str) -> (entry: Result<Entry, WajError>)
        requires
            self.wf(),
        ensures
            entry is Ok <==> position_of(self@, path.spec_bytes()) is Some,
            entry matches Ok(e) ==> entry_of(
                self@[position_of(self@, path.spec_bytes())->0 as int],
                position_of(self@, path.spec_bytes())->0,
                e,
            ),
            entry matches Err(e) ==> e matches WajError::PathNotFound(report) && report@
                == not_found_report(path@),
    {
        match self.lookup(path.as_bytes()) {
            None => Err(
                WajError::PathNotFound(String::from_str("Cannot found entry ").concat(path)),
            ),
            Some(entry) => Ok(entry),
        }
    }
}

} // verus!
