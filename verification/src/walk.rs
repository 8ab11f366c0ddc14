//! Going through all entries of an archive in index order.

use vstd::prelude::*;
use crate::create::entry::{EntryView, KindView};
use crate::entry::{Content, Entry, Redirect};
use crate::error::BaseError;
use crate::text::copy_bytes;
use crate::url::byte_strings;
use crate::waj::Waj;

verus! {

/// The failure that a step reported, if it did.
pub open spec fn failure(done: Result<(), BaseError>) -> Option<Seq<char>> {
    match done {
        Ok(_) => None,
        Err(e) => Some(e.message_spec()),
    }
}

/// The record that a reader's file entry was made of.
pub open spec fn content_record(entry: Content) -> EntryView {
    EntryView {
        path: entry.common.path@,
        kind: KindView::Content { mimetype: entry.mimetype@, content: entry.content },
    }
}

/// The record that a reader's redirect entry was made of.
pub open spec fn redirect_record(entry: Redirect) -> EntryView {
    EntryView { path: entry.common.path@, kind: KindView::Redirect { target: entry.target@ } }
}

/// What is done at each entry of a walk. Every step may change the context
/// and may fail, which ends the walk.
///
/// An operator may say what its steps do: each of the three relations
/// holds of a context before a step, the context after it and the failure
/// that the step reported, if it did. An operator that says nothing leaves
/// them as they are, true of everything.
pub trait Operator<Context> {
    /// What `on_start` may do.
    open spec fn start_step(
        &self,
        before: Context,
        after: Context,
        failure: Option<Seq<char>>,
    ) -> bool {
        true
    }

    /// What `on_stop` may do.
    open spec fn stop_step(&self, before: Context, after: Context, failure: Option<Seq<char>>)
        -> bool {
        true
    }

    /// What `on_content` and `on_redirect` may do with the entry at
    /// position `idx` of the index, made of `record`.
    open spec fn visit_step(
        &self,
        before: Context,
        idx: usize,
        record: EntryView,
        after: Context,
        failure: Option<Seq<char>>,
    ) -> bool {
        true
    }

    fn on_start(&self, context: &mut Context) -> (done: Result<(), BaseError>)
        ensures
            self.start_step(*old(context), *final(context), failure(done)),
    ;

    fn on_stop(&self, context: &mut Context) -> (done: Result<(), BaseError>)
        ensures
            self.stop_step(*old(context), *final(context), failure(done)),
    ;

    fn on_content(&self, context: &mut Context, entry: &Content) -> (done: Result<(), BaseError>)
        ensures
            self.visit_step(
                *old(context),
                entry.common.idx,
                content_record(*entry),
                *final(context),
                failure(done),
            ),
    ;

    fn on_redirect(&self, context: &mut Context, entry: &Redirect) -> (done: Result<
        (),
        BaseError,
    >)
        ensures
            self.visit_step(
                *old(context),
                entry.common.idx,
                redirect_record(*entry),
                *final(context),
                failure(done),
            ),
    ;
}

/// Whether `op`, started on `before`, may have come to `after` once it has
/// visited the first `n` of `records` in their order, nothing having
/// failed.
pub open spec fn visited<Context, O: Operator<Context>>(
    op: &O,
    records: Seq<EntryView>,
    n: nat,
    before: Context,
    after: Context,
) -> bool
    decreases n,
{
    if n == 0 {
        op.start_step(before, after, None)
    } else {
        exists|mid: Context|
            visited(op, records, (n - 1) as nat, before, mid) && #[trigger] op.visit_step(
                mid,
                (n - 1) as usize,
                records[n - 1],
                after,
                None,
            )
    }
}

/// Whether a walk of `op` over `records` may turn `before` into `after` and
/// end with `failure`. A walk starts the operator, hands it every record in
/// index order and stops it; the first step that fails is the last.
pub open spec fn walked<Context, O: Operator<Context>>(
    op: &O,
    records: Seq<EntryView>,
    before: Context,
    after: Context,
    failure: Option<Seq<char>>,
) -> bool {
    ||| failure is Some && op.start_step(before, after, failure)
    ||| failure is Some && exists|n: nat, mid: Context|
        n < records.len() && #[trigger] visited(op, records, n, before, mid) && op.visit_step(
            mid,
            n as usize,
            records[n as int],
            after,
            failure,
        )
    ||| exists|mid: Context|
        #[trigger] visited(op, records, records.len(), before, mid) && op.stop_step(
            mid,
            after,
            failure,
        )
}

proof fn lemma_visited_next<Context, O: Operator<Context>>(
    op: &O,
    records: Seq<EntryView>,
    n: nat,
    before: Context,
    mid: Context,
    after: Context,
)
    requires
        n <= usize::MAX,
        n < records.len(),
        visited(op, records, n, before, mid),
        op.visit_step(mid, n as usize, records[n as int], after, None),
    ensures
        visited(op, records, n + 1, before, after),
{
    let next: nat = n + 1;
    assert(visited(op, records, (next - 1) as nat, before, mid));
    assert(op.visit_step(mid, (next - 1) as usize, records[next - 1], after, None));
}

/// A walk over an archive with a context of the caller's.
pub struct Walker<'a, Context> {
    pub waj: &'a Waj,
    pub context: Context,
}

impl<'a, Context> Walker<'a, Context> {
    pub fn new(waj: &'a Waj, context: Context) -> (walker: Self)
        ensures
            walker.waj == waj,
            walker.context == context,
    {
        Walker { waj, context }
    }

    /// Starts `op`, hands it every entry in index order, and stops it. The
    /// first failure of `op` ends the walk and is handed on.
    pub fn run<O: Operator<Context>>(&mut self, op: &O) -> (done: Result<(), BaseError>)
        ensures
            final(self).waj == old(self).waj,
            walked(op, old(self).waj@, old(self).context, final(self).context, failure(done)),
    {
        let ghost records = self.waj@;
        let ghost first = self.context;
        match op.on_start(&mut self.context) {
            Ok(_) => {},
            Err(e) => {
                return Err(e);
            },
        }
        let mut i: usize = 0;
        while i < self.waj.len()
            invariant
                self.waj == old(self).waj,
                records == self.waj@,
                first == old(self).context,
                i <= records.len(),
                visited(op, records, i as nat, first, self.context),
            decreases records.len() - i,
        {
            let ghost mid = self.context;
            let step = match self.waj.entry_at(i) {
                Some(Entry::Content(entry)) => {
                    assert(content_record(entry) == records[i as int]);
                    op.on_content(&mut self.context, &entry)
                },
                Some(Entry::Redirect(entry)) => {
                    assert(redirect_record(entry) == records[i as int]);
                    op.on_redirect(&mut self.context, &entry)
                },
                None => Ok(()),
            };
            assert(op.visit_step(mid, i, records[i as int], self.context, failure(step)));
            if let Err(e) = step {
                assert(visited(op, records, i as nat, first, mid));
                return Err(e);
            }
            proof {
                lemma_visited_next(op, records, i as nat, first, mid, self.context);
            }
            i += 1;
        }
        let ghost last = self.context;
        let done = op.on_stop(&mut self.context);
        assert(visited(op, records, records.len(), first, last));
        done
    }
}

/// The paths of `s`, in its order.
pub open spec fn paths_of(s: Seq<EntryView>) -> Seq<Seq<u8>> {
    Seq::new(s.len(), |i: int| s[i].path)
}

/// Lists the paths of all entries in index order.
pub fn list(waj: &Waj) -> (paths: Vec<Vec<u8>>)
    ensures
        byte_strings(paths@) == paths_of(waj@),
{
    let mut paths: Vec<Vec<u8>> = Vec::new();
    let mut i: usize = 0;
    while i < waj.len()
        invariant
            i <= waj@.len(),
            paths@.len() == i,
            forall|k: int| 0 <= k < i ==> (#[trigger] paths@[k])@ == waj@[k].path,
        decreases waj@.len() - i,
    {
        match waj.record(i) {
            Some(record) => {
                paths.push(copy_bytes(record.path.as_slice()));
            },
            None => {},
        }
        i += 1;
    }
    assert(byte_strings(paths@) =~= paths_of(waj@));
    paths
}

} // verus!
