//! What holds of every archive that this crate builds.

use vstd::prelude::*;
use vstd::utf8::encode_utf8;
use crate::create::content::{
    added, blake3_digest, known, known_from, lemma_known_from, no_duplicates, Added,
};
use crate::create::entry::{EntryView, KindView};
use crate::create::{record_of, EntryKindView};
use crate::create::order::{
    is_stable_sort_of, lemma_with_path_absent, sorted_by_path, with_path,
};
use crate::waj::{absent_before, found_at, lemma_position_of, position_of};

verus! {

proof fn lemma_with_path_present(s: Seq<EntryView>, path: Seq<u8>)
    requires
        with_path(s, path).len() > 0,
    ensures
        exists|j: int| 0 <= j < s.len() && (#[trigger] s[j]).path == path,
    decreases s.len(),
{
    if s.len() > 0 {
        if s.last().path == path {
            assert(s[s.len() - 1].path == path);
        } else {
            lemma_with_path_present(s.drop_last(), path);
            let j = choose|j: int| 0 <= j < s.drop_last().len() && (#[trigger] s.drop_last()[j]).path
                == path;
            assert(s[j].path == path);
        }
    }
}

proof fn lemma_first_exists(s: Seq<EntryView>, path: Seq<u8>, j: int) -> (k: usize)
    requires
        s.len() <= usize::MAX,
        0 <= j < s.len(),
        s[j].path == path,
    ensures
        found_at(s, path, Some(k)),
        k <= j,
    decreases j,
{
    if exists|i: int| 0 <= i < j && (#[trigger] s[i]).path == path {
        let i = choose|i: int| 0 <= i < j && (#[trigger] s[i]).path == path;
        lemma_first_exists(s, path, i)
    } else {
        j as usize
    }
}

proof fn lemma_with_path_first(s: Seq<EntryView>, path: Seq<u8>, k: usize)
    requires
        found_at(s, path, Some(k)),
    ensures
        with_path(s, path).len() > 0,
        with_path(s, path)[0] == s[k as int],
    decreases s.len(),
{
    let front = s.drop_last();
    if k as int == s.len() - 1 {
        assert forall|i: int| 0 <= i < front.len() implies (#[trigger] front[i]).path != path by {
            assert(front[i] == s[i]);
        }
        lemma_with_path_absent(front, path);
        assert(with_path(s, path) =~= seq![s.last()]);
    } else {
        assert(front[k as int] == s[k as int]);
        assert forall|i: int| 0 <= i < k && i < front.len() implies (#[trigger] front[i]).path
            != path by {
            assert(front[i] == s[i]);
        }
        lemma_with_path_first(front, path, k);
    }
}

/// An entry that was added is found again. A lookup of its path finds the
/// record that was added first under that path, so an entry whose path no
/// earlier entry has is found as it was added: with its kind, its MIME type
/// and the address of its payload, or with its target.
pub proof fn lemma_added_entry_is_found(added: Seq<EntryView>, sorted: Seq<EntryView>, i: int)
    requires
        added.len() <= usize::MAX,
        is_stable_sort_of(sorted, added),
        0 <= i < added.len(),
        absent_before(added, added[i].path, i),
    ensures
        position_of(sorted, added[i].path) matches Some(k) && k < sorted.len() && sorted[k as int]
            == added[i],
{
    let path = added[i].path;
    assert(found_at(added, path, Some(i as usize)));
    lemma_with_path_first(added, path, i as usize);
    lemma_with_path_present(sorted, path);
    let j = choose|j: int| 0 <= j < sorted.len() && (#[trigger] sorted[j]).path == path;
    let k = lemma_first_exists(sorted, path, j);
    lemma_with_path_first(sorted, path, k);
    lemma_position_of(sorted, path, Some(k));
}

/// A path that no added entry has is not found.
pub proof fn lemma_absent_path_is_not_found(
    added: Seq<EntryView>,
    sorted: Seq<EntryView>,
    path: Seq<u8>,
)
    requires
        is_stable_sort_of(sorted, added),
        absent_before(added, path, added.len() as int),
    ensures
        position_of(sorted, path) is None,
{
    lemma_with_path_absent(added, path);
    if exists|j: int| 0 <= j < sorted.len() && (#[trigger] sorted[j]).path == path {
        let j = choose|j: int| 0 <= j < sorted.len() && (#[trigger] sorted[j]).path == path;
        assert(with_path(sorted, path).len() > 0) by {
            if with_path(sorted, path).len() == 0 {
                lemma_with_path_nonempty(sorted, path, j);
            }
        }
    }
    assert(found_at(sorted, path, None));
    lemma_position_of(sorted, path, None);
}

proof fn lemma_with_path_nonempty(s: Seq<EntryView>, path: Seq<u8>, j: int)
    requires
        0 <= j < s.len(),
        s[j].path == path,
    ensures
        with_path(s, path).len() > 0,
    decreases s.len(),
{
    if j < s.len() - 1 {
        assert(s.drop_last()[j] == s[j]);
        lemma_with_path_nonempty(s.drop_last(), path, j);
    }
}

/// The index of a finished store never steps down: of two records, the
/// later one has the greater path or the same.
pub proof fn lemma_index_is_sorted(added: Seq<EntryView>, sorted: Seq<EntryView>)
    requires
        is_stable_sort_of(sorted, added),
    ensures
        sorted_by_path(sorted),
        sorted.len() == added.len(),
{
}

proof fn lemma_known_in_extension(
    digests: Seq<Seq<u8>>,
    longer: Seq<Seq<u8>>,
    digest: Seq<u8>,
    i: int,
)
    requires
        0 <= i,
        digests.is_prefix_of(longer),
        known(digests, digest) is Some,
        known(digests, digest) == known_from(digests, digest, i),
    ensures
        known_from(longer, digest, i) == known(digests, digest),
    decreases digests.len() - i,
{
    lemma_known_from(digests, digest, i);
    assert(longer[i] == digests[i]);
    if digests[i] != digest {
        lemma_known_in_extension(digests, longer, digest, i + 1);
    }
}

/// A payload is stored once. Whatever was added in between, a payload with
/// the bytes of an earlier one gets the number of that one and is not
/// stored again.
pub proof fn lemma_same_payload_same_number(
    before: Seq<Seq<u8>>,
    later: Seq<Seq<u8>>,
    first: Seq<u8>,
    second: Seq<u8>,
)
    requires
        before.len() < u32::MAX,
        later.len() < u32::MAX,
        added(before, blake3_digest(first)).0.is_prefix_of(later),
        first == second,
    ensures
        added(later, blake3_digest(second)).1 == Added::Cached(
            added(before, blake3_digest(first)).1.idx(),
        ),
        added(later, blake3_digest(second)).0 == later,
{
    let digest = blake3_digest(first);
    let after = added(before, digest).0;
    lemma_known_from(before, digest, 0);
    lemma_known_from(after, digest, 0);
    assert(known(after, digest) is Some && known(after, digest)->0 == added(
        before,
        digest,
    ).1.idx()) by {
        if known(before, digest) is None {
            assert(after[before.len() as int] == digest);
        }
    }
    lemma_known_in_extension(after, later, digest, 0);
}

/// Adding a payload to a pack that holds none twice leaves a pack that
/// holds none twice.
pub proof fn lemma_each_payload_is_held_once(digests: Seq<Seq<u8>>, digest: Seq<u8>)
    requires
        no_duplicates(digests),
    ensures
        no_duplicates(added(digests, digest).0),
{
    lemma_known_from(digests, digest, 0);
}

/// Files with the same bytes share one payload. Of two files with the same
/// bytes, added one after the other with whatever in between, the second
/// is given the address of the first and adds nothing to the pack, which
/// holds their payload at one place only. Once the archive is closed, the
/// entries of both are found under their names and carry that one address.
pub proof fn lemma_equal_files_share_their_payload(
    before: Seq<Seq<u8>>,
    later: Seq<Seq<u8>>,
    bytes: Seq<u8>,
    entries: Seq<EntryView>,
    sorted: Seq<EntryView>,
    i: int,
    j: int,
    first_name: Seq<char>,
    second_name: Seq<char>,
    first_type: Seq<char>,
    second_type: Seq<char>,
)
    requires
        before.len() < u32::MAX,
        later.len() < u32::MAX,
        no_duplicates(later),
        added(before, blake3_digest(bytes)).0.is_prefix_of(later),
        entries.len() <= usize::MAX,
        is_stable_sort_of(sorted, entries),
        0 <= i < entries.len(),
        0 <= j < entries.len(),
        entries[i] == record_of(
            first_name,
            EntryKindView::Content(
                added(before, blake3_digest(bytes)).1.address_spec(),
                first_type,
            ),
        ),
        entries[j] == record_of(
            second_name,
            EntryKindView::Content(
                added(later, blake3_digest(bytes)).1.address_spec(),
                second_type,
            ),
        ),
        absent_before(entries, entries[i].path, i),
        absent_before(entries, entries[j].path, j),
    ensures
        added(later, blake3_digest(bytes)).1.address_spec() == added(
            before,
            blake3_digest(bytes),
        ).1.address_spec(),
        added(later, blake3_digest(bytes)).0 == later,
        forall|m: int, n: int|
            0 <= m < later.len() && 0 <= n < later.len() && later[m] == blake3_digest(bytes)
                && later[n] == blake3_digest(bytes) ==> m == n,
        position_of(sorted, entries[i].path) matches Some(at) && sorted[at as int].kind
            == (KindView::Content {
            mimetype: encode_utf8(first_type),
            content: added(before, blake3_digest(bytes)).1.address_spec(),
        }),
        position_of(sorted, entries[j].path) matches Some(at) && sorted[at as int].kind
            == (KindView::Content {
            mimetype: encode_utf8(second_type),
            content: added(before, blake3_digest(bytes)).1.address_spec(),
        }),
{
    lemma_same_payload_same_number(before, later, bytes, bytes);
    lemma_added_entry_is_found(entries, sorted, i);
    lemma_added_entry_is_found(entries, sorted, j);
    assert forall|m: int, n: int|
        0 <= m < later.len() && 0 <= n < later.len() && later[m] == blake3_digest(bytes)
            && later[n] == blake3_digest(bytes) implies m == n by {
        if m < n {
            assert(later[m] != later[n]);
        }
        if n < m {
            assert(later[n] != later[m]);
        }
    }
}

} // verus!
