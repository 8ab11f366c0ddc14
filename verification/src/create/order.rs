//! The order of an entry store: sorting records stably by path.

use vstd::prelude::*;
use crate::create::entry::{entry_views, Entry, EntryView};
use crate::text::{compare_bytes, lemma_lex_flip, lemma_lex_transitive, lex_le, lex_lt, Order};

verus! {

/// No record is followed, anywhere later, by one with a smaller path.
pub open spec fn sorted_by_path(s: Seq<EntryView>) -> bool {
    forall|i: int, j: int| 0 <= i <= j < s.len() ==> lex_le(#[trigger] s[i].path, #[trigger] s[j].path)
}

/// The records of `s` whose path is `path`, in the order in which `s` has
/// them.
pub open spec fn with_path(s: Seq<EntryView>, path: Seq<u8>) -> Seq<EntryView>
    decreases s.len(),
{
    if s.len() == 0 {
        Seq::empty()
    } else if s.last().path == path {
        with_path(s.drop_last(), path).push(s.last())
    } else {
        with_path(s.drop_last(), path)
    }
}

/// `sorted` holds the records of `s` ordered by path, and records with the
/// same path in the order in which `s` has them.
pub open spec fn is_stable_sort_of(sorted: Seq<EntryView>, s: Seq<EntryView>) -> bool {
    &&& sorted_by_path(sorted)
    &&& sorted.len() == s.len()
    &&& sorted.to_multiset() == s.to_multiset()
    &&& forall|path: Seq<u8>| with_path(sorted, path) == with_path(s, path)
}

/// Two sorted runs as one, the records of `a` before those of `b` where
/// their paths are the same.
spec fn merged(a: Seq<EntryView>, b: Seq<EntryView>) -> Seq<EntryView>
    decreases a.len() + b.len(),
{
    if a.len() == 0 {
        b
    } else if b.len() == 0 {
        a
    } else if lex_lt(b.last().path, a.last().path) {
        merged(a.drop_last(), b).push(a.last())
    } else {
        merged(a, b.drop_last()).push(b.last())
    }
}

proof fn lemma_with_path_concat(a: Seq<EntryView>, b: Seq<EntryView>, path: Seq<u8>)
    ensures
        with_path(a + b, path) == with_path(a, path) + with_path(b, path),
    decreases b.len(),
{
    if b.len() == 0 {
        assert(a + b =~= a);
        assert(with_path(a, path) + with_path(b, path) =~= with_path(a, path));
    } else {
        assert((a + b).drop_last() =~= a + b.drop_last());
        assert((a + b).last() == b.last());
        lemma_with_path_concat(a, b.drop_last(), path);
        if b.last().path == path {
            assert(with_path(a, path) + with_path(b, path) =~= (with_path(a, path) + with_path(
                b.drop_last(),
                path,
            )).push(b.last()));
        }
    }
}

/// A sequence without a record of path `path` has none to list for it.
pub proof fn lemma_with_path_absent(s: Seq<EntryView>, path: Seq<u8>)
    requires
        forall|i: int| 0 <= i < s.len() ==> (#[trigger] s[i]).path != path,
    ensures
        with_path(s, path) == Seq::<EntryView>::empty(),
    decreases s.len(),
{
    if s.len() > 0 {
        assert forall|i: int| 0 <= i < s.drop_last().len() implies (#[trigger] s.drop_last()[i]).path
            != path by {
            assert(s.drop_last()[i] == s[i]);
        }
        lemma_with_path_absent(s.drop_last(), path);
    }
}

proof fn lemma_merged(a: Seq<EntryView>, b: Seq<EntryView>)
    requires
        sorted_by_path(a),
        sorted_by_path(b),
    ensures
        sorted_by_path(merged(a, b)),
        merged(a, b).len() == a.len() + b.len(),
        merged(a, b).to_multiset() == a.to_multiset().add(b.to_multiset()),
        forall|path: Seq<u8>| with_path(merged(a, b), path) == with_path(a, path) + with_path(b, path),
        forall|k: int|
            0 <= k < merged(a, b).len() ==> (exists|i: int|
                0 <= i < a.len() && a[i] == #[trigger] merged(a, b)[k]) || (exists|j: int|
                0 <= j < b.len() && b[j] == merged(a, b)[k]),
    decreases a.len() + b.len(),
{
    broadcast use vstd::seq_lib::group_to_multiset_ensures;

    let m = merged(a, b);
    if a.len() == 0 {
        assert(a.to_multiset() =~= vstd::multiset::Multiset::empty());
        assert(m.to_multiset() =~= a.to_multiset().add(b.to_multiset()));
        assert forall|path: Seq<u8>| with_path(m, path) == with_path(a, path) + with_path(
            b,
            path,
        ) by {
            assert(with_path(a, path) + with_path(b, path) =~= with_path(b, path));
        }
        assert forall|k: int| 0 <= k < m.len() implies (exists|i: int|
            0 <= i < a.len() && a[i] == #[trigger] m[k]) || (exists|j: int|
            0 <= j < b.len() && b[j] == m[k]) by {
            assert(b[k] == m[k]);
        }
    } else if b.len() == 0 {
        assert(b.to_multiset() =~= vstd::multiset::Multiset::empty());
        assert(m.to_multiset() =~= a.to_multiset().add(b.to_multiset()));
        assert forall|path: Seq<u8>| with_path(m, path) == with_path(a, path) + with_path(
            b,
            path,
        ) by {
            assert(with_path(a, path) + with_path(b, path) =~= with_path(a, path));
        }
        assert forall|k: int| 0 <= k < m.len() implies (exists|i: int|
            0 <= i < a.len() && a[i] == #[trigger] m[k]) || (exists|j: int|
            0 <= j < b.len() && b[j] == m[k]) by {
            assert(a[k] == m[k]);
        }
    } else if lex_lt(b.last().path, a.last().path) {
        let a0 = a.drop_last();
        let x = a.last();
        let rest = merged(a0, b);
        assert(sorted_by_path(a0)) by {
            assert forall|i: int, j: int| 0 <= i <= j < a0.len() implies lex_le(
                #[trigger] a0[i].path,
                #[trigger] a0[j].path,
            ) by {
                assert(a0[i] == a[i] && a0[j] == a[j]);
            }
        }
        lemma_merged(a0, b);
        assert(m == rest.push(x));
        assert(a =~= a0.push(x));
        assert(m.to_multiset() =~= a.to_multiset().add(b.to_multiset()));
        assert forall|k: int| 0 <= k < m.len() implies (exists|i: int|
            0 <= i < a.len() && a[i] == #[trigger] m[k]) || (exists|j: int|
            0 <= j < b.len() && b[j] == m[k]) by {
            if k < rest.len() {
                assert(m[k] == rest[k]);
                if exists|i: int| 0 <= i < a0.len() && a0[i] == rest[k] {
                    let i = choose|i: int| 0 <= i < a0.len() && a0[i] == rest[k];
                    assert(a[i] == m[k]);
                }
            } else {
                assert(a[a.len() - 1] == m[k]);
            }
        }
        assert forall|k: int| 0 <= k < rest.len() implies lex_le(
            (#[trigger] rest[k]).path,
            x.path,
        ) by {
            if exists|i: int| 0 <= i < a0.len() && a0[i] == rest[k] {
                let i = choose|i: int| 0 <= i < a0.len() && a0[i] == rest[k];
                assert(a[i] == rest[k]);
                assert(lex_le(a[i].path, a[a.len() - 1].path));
            } else {
                let j = choose|j: int| 0 <= j < b.len() && b[j] == rest[k];
                assert(lex_le(b[j].path, b[b.len() - 1].path));
                lemma_lex_transitive(b[j].path, b.last().path, x.path);
            }
        }
        assert forall|i: int, j: int| 0 <= i <= j < m.len() implies lex_le(
            #[trigger] m[i].path,
            #[trigger] m[j].path,
        ) by {
            if j < rest.len() {
                assert(m[i] == rest[i] && m[j] == rest[j]);
            } else if i < rest.len() {
                assert(m[i] == rest[i]);
            } else {
                lemma_lex_flip(x.path, x.path);
            }
        }
        assert forall|path: Seq<u8>| with_path(m, path) == with_path(a, path) + with_path(
            b,
            path,
        ) by {
            assert(m.drop_last() =~= rest);
            if x.path == path {
                assert forall|j: int| 0 <= j < b.len() implies (#[trigger] b[j]).path != path by {
                    assert(lex_le(b[j].path, b[b.len() - 1].path));
                    lemma_lex_transitive(b[j].path, b.last().path, x.path);
                    crate::text::lemma_lex_equal(b[j].path, x.path);
                }
                lemma_with_path_absent(b, path);
                assert(m.last() == x);
                assert(with_path(m, path) == with_path(rest, path).push(x));
                assert(with_path(rest, path) == with_path(a0, path) + with_path(b, path));
                assert(with_path(a, path) == with_path(a0, path).push(x));
                assert(with_path(m, path) =~= with_path(a, path) + with_path(b, path));
            } else {
                assert(m.last() == x);
                assert(with_path(m, path) == with_path(rest, path));
                assert(with_path(rest, path) == with_path(a0, path) + with_path(b, path));
                assert(with_path(a, path) == with_path(a0, path));
            }
        }
    } else {
        let b0 = b.drop_last();
        let y = b.last();
        let rest = merged(a, b0);
        assert(sorted_by_path(b0)) by {
            assert forall|i: int, j: int| 0 <= i <= j < b0.len() implies lex_le(
                #[trigger] b0[i].path,
                #[trigger] b0[j].path,
            ) by {
                assert(b0[i] == b[i] && b0[j] == b[j]);
            }
        }
        lemma_merged(a, b0);
        assert(m == rest.push(y));
        assert(b =~= b0.push(y));
        assert(m.to_multiset() =~= a.to_multiset().add(b.to_multiset()));
        assert forall|k: int| 0 <= k < m.len() implies (exists|i: int|
            0 <= i < a.len() && a[i] == #[trigger] m[k]) || (exists|j: int|
            0 <= j < b.len() && b[j] == m[k]) by {
            if k < rest.len() {
                assert(m[k] == rest[k]);
                if !(exists|i: int| 0 <= i < a.len() && a[i] == rest[k]) {
                    let j = choose|j: int| 0 <= j < b0.len() && b0[j] == rest[k];
                    assert(b[j] == m[k]);
                }
            } else {
                assert(b[b.len() - 1] == m[k]);
            }
        }
        lemma_lex_flip(y.path, a.last().path);
        assert forall|k: int| 0 <= k < rest.len() implies lex_le(
            (#[trigger] rest[k]).path,
            y.path,
        ) by {
            if exists|i: int| 0 <= i < a.len() && a[i] == rest[k] {
                let i = choose|i: int| 0 <= i < a.len() && a[i] == rest[k];
                assert(lex_le(a[i].path, a[a.len() - 1].path));
                lemma_lex_flip(a.last().path, y.path);
                lemma_lex_transitive(a[i].path, a.last().path, y.path);
            } else {
                let j = choose|j: int| 0 <= j < b0.len() && b0[j] == rest[k];
                assert(b[j] == rest[k]);
                assert(lex_le(b[j].path, b[b.len() - 1].path));
            }
        }
        assert forall|i: int, j: int| 0 <= i <= j < m.len() implies lex_le(
            #[trigger] m[i].path,
            #[trigger] m[j].path,
        ) by {
            if j < rest.len() {
                assert(m[i] == rest[i] && m[j] == rest[j]);
            } else if i < rest.len() {
                assert(m[i] == rest[i]);
            } else {
                lemma_lex_flip(y.path, y.path);
            }
        }
        assert forall|path: Seq<u8>| with_path(m, path) == with_path(a, path) + with_path(
            b,
            path,
        ) by {
            assert(m.drop_last() =~= rest);
            assert(m.last() == y);
            assert(with_path(rest, path) == with_path(a, path) + with_path(b0, path));
            if y.path == path {
                assert(with_path(m, path) == with_path(rest, path).push(y));
                assert(with_path(b, path) == with_path(b0, path).push(y));
                assert(with_path(m, path) =~= with_path(a, path) + with_path(b, path));
            } else {
                assert(with_path(m, path) == with_path(rest, path));
                assert(with_path(b, path) == with_path(b0, path));
            }
        }
    }
}

proof fn lemma_merged_takes_last(a: Seq<EntryView>, b: Seq<EntryView>, from_a: bool)
    requires
        a.len() > 0 || b.len() > 0,
        from_a == (a.len() > 0 && (b.len() == 0 || lex_lt(b.last().path, a.last().path))),
    ensures
        from_a ==> merged(a, b) == merged(a.drop_last(), b).push(a.last()),
        !from_a ==> merged(a, b) == merged(a, b.drop_last()).push(b.last()),
{
    if from_a {
        if b.len() == 0 {
            assert(merged(a.drop_last(), b) == a.drop_last()) by {
                if a.drop_last().len() == 0 {
                    assert(a.drop_last() =~= b);
                }
            }
            assert(a =~= a.drop_last().push(a.last()));
        }
    } else {
        if a.len() == 0 {
            assert(merged(a, b.drop_last()) == b.drop_last());
            assert(b =~= b.drop_last().push(b.last()));
        }
    }
}

proof fn lemma_views_pop(before: Seq<Entry>, after: Seq<Entry>)
    requires
        before.len() > 0,
        after == before.subrange(0, before.len() - 1),
    ensures
        entry_views(after) == entry_views(before).drop_last(),
        entry_views(before).last() == before[before.len() - 1]@,
{
    assert(entry_views(after) =~= entry_views(before).drop_last());
}

proof fn lemma_views_push(before: Seq<Entry>, entry: Entry)
    ensures
        entry_views(before.push(entry)) == entry_views(before).push(entry@),
{
    assert(entry_views(before.push(entry)) =~= entry_views(before).push(entry@));
}

proof fn lemma_moved_to_reverse(rest: Seq<EntryView>, x: EntryView, done: Seq<EntryView>)
    ensures
        rest.push(x) + done.reverse() == rest + done.push(x).reverse(),
{
    assert(done.push(x).reverse() =~= seq![x] + done.reverse());
    assert(rest.push(x) + done.reverse() =~= rest + (seq![x] + done.reverse()));
}

proof fn lemma_moved_from_reverse(have: Seq<EntryView>, left: Seq<EntryView>)
    requires
        left.len() > 0,
    ensures
        have + left.reverse() == have.push(left.last()) + left.drop_last().reverse(),
{
    assert(left.reverse() =~= seq![left.last()] + left.drop_last().reverse());
    assert(have + left.reverse() =~= have.push(left.last()) + left.drop_last().reverse());
}

fn merge(a: Vec<Entry>, b: Vec<Entry>) -> (out: Vec<Entry>)
    ensures
        entry_views(out@) == merged(entry_views(a@), entry_views(b@)),
{
    let mut a = a;
    let mut b = b;
    let ghost target = merged(entry_views(a@), entry_views(b@));
    let mut backwards: Vec<Entry> = Vec::new();
    assert(entry_views(backwards@).reverse() =~= Seq::<EntryView>::empty());
    assert(target =~= target + Seq::<EntryView>::empty());
    while a.len() > 0 || b.len() > 0
        invariant
            target == merged(entry_views(a@), entry_views(b@)) + entry_views(backwards@).reverse(),
        decreases a.len() + b.len(),
    {
        let ghost va = entry_views(a@);
        let ghost vb = entry_views(b@);
        let ghost done = entry_views(backwards@);
        let ghost before = backwards@;
        let from_a = if a.len() == 0 {
            false
        } else if b.len() == 0 {
            true
        } else {
            compare_bytes(b[b.len() - 1].path.as_slice(), a[a.len() - 1].path.as_slice())
                == Order::Less
        };
        let ghost source = if from_a {
            a@
        } else {
            b@
        };
        let last = if from_a {
            a.pop()
        } else {
            b.pop()
        };
        proof {
            if from_a {
                lemma_views_pop(source, a@);
            } else {
                lemma_views_pop(source, b@);
            }
            lemma_merged_takes_last(va, vb, from_a);
        }
        match last {
            Some(entry) => {
                backwards.push(entry);
                proof {
                    lemma_views_push(before, entry);
                    lemma_moved_to_reverse(
                        merged(entry_views(a@), entry_views(b@)),
                        entry@,
                        done,
                    );
                }
            },
            None => {},
        }
    }
    assert(target =~= entry_views(backwards@).reverse());
    let mut out: Vec<Entry> = Vec::new();
    assert(entry_views(out@) =~= Seq::<EntryView>::empty());
    assert(target =~= entry_views(out@) + entry_views(backwards@).reverse());
    while backwards.len() > 0
        invariant
            target == entry_views(out@) + entry_views(backwards@).reverse(),
        decreases backwards.len(),
    {
        let ghost left = backwards@;
        let ghost have = out@;
        let last = backwards.pop();
        proof {
            lemma_views_pop(left, backwards@);
            lemma_moved_from_reverse(entry_views(have), entry_views(left));
        }
        match last {
            Some(entry) => {
                out.push(entry);
                proof {
                    lemma_views_push(have, entry);
                }
            },
            None => {},
        }
    }
    assert(entry_views(backwards@).reverse() =~= Seq::<EntryView>::empty());
    assert(target =~= entry_views(out@));
    out
}

proof fn lemma_stable_sort_of_merged(
    s: Seq<EntryView>,
    left: Seq<EntryView>,
    right: Seq<EntryView>,
    mid: int,
)
    requires
        0 <= mid <= s.len(),
        is_stable_sort_of(left, s.subrange(0, mid)),
        is_stable_sort_of(right, s.subrange(mid, s.len() as int)),
    ensures
        is_stable_sort_of(merged(left, right), s),
{
    broadcast use vstd::seq_lib::group_to_multiset_ensures;

    let front = s.subrange(0, mid);
    let back = s.subrange(mid, s.len() as int);
    assert(s =~= front + back);
    lemma_merged(left, right);
    vstd::seq_lib::lemma_multiset_commutative(front, back);
    assert forall|path: Seq<u8>| with_path(merged(left, right), path) == with_path(s, path) by {
        lemma_with_path_concat(front, back, path);
    }
}

/// Sorts records by path. Records with the same path keep their order.
pub fn sort_by_path(entries: Vec<Entry>) -> (sorted: Vec<Entry>)
    ensures
        is_stable_sort_of(entry_views(sorted@), entry_views(entries@)),
    decreases entries.len(),
{
    let mut entries = entries;
    let ghost all = entry_views(entries@);
    if entries.len() <= 1 {
        assert(sorted_by_path(all)) by {
            if all.len() == 1 {
                lemma_lex_flip(all[0].path, all[0].path);
            }
        }
        return entries;
    }
    let mid = entries.len() / 2;
    let back = entries.split_off(mid);
    assert(entry_views(entries@) =~= all.subrange(0, mid as int));
    assert(entry_views(back@) =~= all.subrange(mid as int, all.len() as int));
    let left = sort_by_path(entries);
    let right = sort_by_path(back);
    proof {
        lemma_stable_sort_of_merged(all, entry_views(left@), entry_views(right@), mid as int);
    }
    merge(left, right)
}

} // verus!
