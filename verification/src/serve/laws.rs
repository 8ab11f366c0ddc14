//! What holds of every answer that this crate gives.

use vstd::prelude::*;
use vstd::string::StringSliceAdditionalSpecFns;
use vstd::utf8::{encode_utf8, valid_utf8};
use crate::create::entry::{EntryView, KindView};
use crate::create::laws::lemma_added_entry_is_found;
use crate::create::order::is_stable_sort_of;
use crate::create::{record_of, EntryKindView};
use crate::entry::ContentAddress;
use crate::range::{
    range_header_syntax, range_outcome_spec, resolved_end, resolved_start, satisfiable,
    suffix_fits, RangeEnd, RangeOutcome, RangeSpec, RangeStart,
};
use crate::response::{
    applicable_range, bytes_response, cache_headers, content_range_unsatisfied,
    content_response, empty_response, header, header_value, missing_html, missing_response,
    missing_svg, shown_as_text, text_of_bytes, BodyView, ContentBytesView, HeaderView,
    ResponseView,
};
use crate::serve::router::{
    after_first_segment, begun, first_segment, handler_named, in_archive, named_from, names_of,
    SubPathRouter,
};
use crate::serve::handler::{
    answer, etag_matches, finish_spec, handle_get_spec, handle_spec, not_found_page,
    location, redirect_response, resolve, resolve_from, FetchedView, LocationStyle, Method,
    PendingView, RequestView, StepView, WajServer,
};
use crate::text::{
    decimal, first_index_of, is_first_index_of, lemma_first_index_of, lemma_first_index_of_none,
};
use crate::url::{
    index_page, percent_decoded, percent_encoded, url_variants_spec, without_leading_slash,
    without_query,
};
use crate::waj::{absent_before, found_at, lemma_position_of, position_of};

verus! {

/// The path `path` as a client asks for it: behind a `/`.
pub open spec fn rooted(path: Seq<u8>) -> Seq<u8> {
    seq![0x2fu8] + path
}

proof fn lemma_rooted_resolves(waj: Seq<EntryView>, path: Seq<u8>)
    requires
        position_of(waj, path) is Some,
    ensures
        resolve(waj, rooted(path)) == position_of(waj, path),
{
    let url = rooted(path);
    assert(url_variants_spec(url)[0] == url);
    assert(without_leading_slash(url) =~= path);
}

/// A file that went into an archive is served from it. A `GET` for the
/// path of an entry that was added as a file, first under its name, waits
/// for the payload at the address that was recorded; once that is there,
/// the answer is 200 with the whole payload, announced under the MIME type
/// that the file was given.
pub proof fn lemma_round_trip(
    added: Seq<EntryView>,
    sorted: Seq<EntryView>,
    i: int,
    name: Seq<char>,
    content: ContentAddress,
    mimetype: Seq<char>,
    size: u64,
    etag: Seq<char>,
    style: LocationStyle,
)
    requires
        added.len() <= usize::MAX,
        is_stable_sort_of(sorted, added),
        0 <= i < added.len(),
        added[i] == record_of(name, EntryKindView::Content(content, mimetype)),
        absent_before(added, added[i].path, i),
        size <= usize::MAX,
    ensures
        handle_get_spec(sorted, style, rooted(encode_utf8(name)), false, false) == StepView::Fetch(
            PendingView {
                address: content,
                mimetype: encode_utf8(mimetype),
                status_code: 200,
                head_request: false,
                etag_match: false,
                fallback: false,
            },
        ),
        finish_spec(
            handle_get_spec(sorted, style, rooted(encode_utf8(name)), false, false)->Fetch_0,
            FetchedView::Bytes(ContentBytesView::Found { size }),
            None,
            etag,
        ) == (ResponseView {
            status: 200,
            headers: (seq![header("Content-Length"@, decimal(size as nat))] + cache_headers(
                etag,
            )).push(header("Content-Type"@, mimetype)),
            body: BodyView::Content { offset: 0, size },
        }),
{
    lemma_added_entry_is_found(added, sorted, i);
    lemma_rooted_resolves(sorted, encode_utf8(name));
    vstd::utf8::encode_utf8_valid_utf8(mimetype);
    vstd::utf8::encode_utf8_decode_utf8(mimetype);
}

/// A link that went into an archive is answered by a redirect. A request
/// for the path of an entry that was added as a redirect, first under its
/// name, is answered by 302 with the target, percent-encoded, as location.
pub proof fn lemma_redirect_is_preserved(
    added: Seq<EntryView>,
    sorted: Seq<EntryView>,
    i: int,
    name: Seq<char>,
    target: Seq<char>,
    style: LocationStyle,
    head_request: bool,
    etag_match: bool,
)
    requires
        added.len() <= usize::MAX,
        is_stable_sort_of(sorted, added),
        0 <= i < added.len(),
        added[i] == record_of(name, EntryKindView::Redirect(target)),
        absent_before(added, added[i].path, i),
    ensures
        handle_get_spec(sorted, style, rooted(encode_utf8(name)), head_request, etag_match)
            == StepView::Respond(
            ResponseView {
                status: 302,
                headers: seq![header("Location"@, location(style, encode_utf8(target)))],
                body: BodyView::Empty,
            },
        ),
        location(LocationStyle::Rooted, encode_utf8(target)) == "/"@ + percent_encoded(
            encode_utf8(target),
        ),
        location(LocationStyle::AsStored, encode_utf8(target)) == percent_encoded(
            encode_utf8(target),
        ),
{
    lemma_added_entry_is_found(added, sorted, i);
    lemma_rooted_resolves(sorted, encode_utf8(name));
    assert(redirect_response(style, encode_utf8(target)).headers =~= seq![
        header("Location"@, location(style, encode_utf8(target))),
    ]);
}

proof fn lemma_percent_encoded_is_ascii(s: Seq<u8>)
    ensures
        vstd::utf8::is_ascii_chars(percent_encoded(s)),
    decreases s.len(),
{
    if s.len() > 0 {
        lemma_percent_encoded_is_ascii(s.drop_first());
        let rest = percent_encoded(s.drop_first());
        let whole = percent_encoded(s);
        assert forall|i: int| 0 <= i < whole.len() implies (#[trigger] whole[i] as nat) < 128 by {
            if crate::url::needs_escape(s[0]) {
                if i >= 3 {
                    assert(whole[i] == rest[i - 3]);
                }
            } else {
                if i >= 1 {
                    assert(whole[i] == rest[i - 1]);
                }
            }
        }
    }
}

/// The location of a redirect is plain ASCII, whatever bytes the target
/// holds.
pub proof fn lemma_location_is_ascii(style: LocationStyle, target: Seq<u8>)
    ensures
        vstd::utf8::is_ascii_chars(location(style, target)),
{
    lemma_percent_encoded_is_ascii(target);
    reveal_strlit("/");
    let encoded = percent_encoded(target);
    let text = location(style, target);
    assert forall|i: int| 0 <= i < text.len() implies (#[trigger] text[i] as nat) < 128 by {
        if style == LocationStyle::Rooted && i >= 1 {
            assert(text[i] == encoded[i - 1]);
        }
    }
}

/// The root of an archive is its first entry. An archive that holds an
/// entry under the empty path, as the redirect to a main page is, has it
/// at the head of its index, and a request for `/` comes to it.
pub proof fn lemma_root_is_first(added: Seq<EntryView>, sorted: Seq<EntryView>, i: int)
    requires
        added.len() <= usize::MAX,
        is_stable_sort_of(sorted, added),
        0 <= i < added.len(),
        added[i].path.len() == 0,
        absent_before(added, added[i].path, i),
    ensures
        sorted[0] == added[i],
        resolve(sorted, seq![0x2fu8]) == Some(0usize),
{
    lemma_added_entry_is_found(added, sorted, i);
    let empty = added[i].path;
    let k = position_of(sorted, empty)->0;
    assert(found_at(sorted, empty, Some(k)));
    if k > 0 {
        assert(crate::text::lex_le(sorted[0].path, sorted[k as int].path));
        assert(sorted[0].path.len() == 0);
        assert(sorted[0].path =~= empty);
    }
    assert(rooted(empty) =~= seq![0x2fu8]);
    lemma_rooted_resolves(sorted, empty);
}

proof fn lemma_decoded_shift(x: Seq<u8>, y: Seq<u8>, j: int)
    requires
        0 <= j,
    ensures
        crate::url::percent_decoded_from(x + y, x.len() + j) == crate::url::percent_decoded_from(
            y,
            j,
        ),
    decreases y.len() - j,
{
    let whole = x + y;
    let at = x.len() + j;
    if j < y.len() {
        assert(whole[at] == y[j]);
        if j + 2 < y.len() {
            assert(whole[at + 1] == y[j + 1]);
            assert(whole[at + 2] == y[j + 2]);
        }
        assert(crate::url::is_escape_at(whole, at) == crate::url::is_escape_at(y, j));
        if crate::url::is_escape_at(y, j) {
            lemma_decoded_shift(x, y, j + 3);
        } else {
            lemma_decoded_shift(x, y, j + 1);
        }
    }
}

proof fn lemma_decoded_after_plain(x: Seq<u8>, y: Seq<u8>, i: int)
    requires
        0 <= i <= x.len(),
        forall|k: int| 0 <= k < x.len() ==> x[k] != 0x25,
    ensures
        crate::url::percent_decoded_from(x + y, i) == x.skip(i) + percent_decoded(y),
    decreases x.len() - i,
{
    let whole = x + y;
    if i == x.len() {
        lemma_decoded_shift(x, y, 0);
        assert(x.skip(i) + percent_decoded(y) =~= percent_decoded(y));
    } else {
        assert(whole[i] == x[i]);
        assert(!crate::url::is_escape_at(whole, i));
        lemma_decoded_after_plain(x, y, i + 1);
        assert(seq![x[i]] + (x.skip(i + 1) + percent_decoded(y)) =~= x.skip(i) + percent_decoded(
            y,
        ));
    }
}

proof fn lemma_slash_is_text()
    ensures
        valid_utf8(seq![0x2fu8]),
        encode_utf8("/"@) == seq![0x2fu8],
{
    reveal_strlit("/");
    let chars = "/"@;
    assert(vstd::utf8::is_ascii_chars(chars)) by {
        assert forall|k: int| 0 <= k < chars.len() implies (chars[k] as nat) < 128 by {}
    }
    vstd::utf8::is_ascii_chars_encode_utf8(chars);
    vstd::utf8::encode_utf8_valid_utf8(chars);
    assert(encode_utf8(chars) =~= seq![0x2fu8]);
}

proof fn lemma_named_is_text(table: Seq<(String, WajServer)>, name: Seq<u8>, i: int)
    requires
        0 <= i,
        named_from(names_of(table), name, i) is Some,
    ensures
        valid_utf8(name),
    decreases table.len() - i,
{
    if i < table.len() {
        if names_of(table)[i] == name {
            vstd::utf8::encode_utf8_valid_utf8(table[i].0@);
        } else {
            lemma_named_is_text(table, name, i + 1);
        }
    }
}

/// A URL is decoded once, whatever the router. Where the router picks the
/// archive by the first segment of the path, a request for `/<key>/<rest>`
/// that decodes to text is taken as far as the archive listed under `key`
/// takes a request for `/<rest>` when asked alone: escapes in `rest` are
/// undone once, and what they leave is looked up as it stands.
pub proof fn lemma_sub_path_is_decoded_once(
    router: SubPathRouter,
    server: WajServer,
    request: RequestView,
    key: Seq<u8>,
    rest: Seq<u8>,
    alone: Seq<char>,
)
    requires
        handler_named(router.0@, key) == Some(server),
        forall|k: int| 0 <= k < key.len() ==> key[k] != 0x25 && key[k] != 0x2f,
        encode_utf8(request.url) == seq![0x2fu8] + key + seq![0x2fu8] + rest,
        encode_utf8(alone) == seq![0x2fu8] + rest,
        valid_utf8(percent_decoded(rest)),
    ensures
        begun(&router, request) == Some(
            (
                server,
                handle_spec(
                    server.waj@,
                    server.location_style,
                    server.etag_value@,
                    request,
                    alone,
                ),
            ),
        ),
{
    lemma_slash_is_text();
    lemma_named_is_text(router.0@, key, 0);
    let slash = seq![0x2fu8];
    let front = slash + key + slash;
    let tail = percent_decoded(rest);
    assert(encode_utf8(request.url) =~= front + rest);
    lemma_decoded_after_plain(front, rest, 0);
    lemma_decoded_after_plain(slash, rest, 0);
    assert(front.skip(0) =~= front);
    assert(slash.skip(0) =~= slash);
    let decoded = percent_decoded(encode_utf8(request.url));
    assert(decoded == front + tail);
    assert(percent_decoded(encode_utf8(alone)) == slash + tail);
    vstd::utf8::valid_utf8_concat(slash, key);
    vstd::utf8::valid_utf8_concat(slash + key, slash);
    vstd::utf8::valid_utf8_concat(front, tail);
    vstd::utf8::valid_utf8_concat(slash, tail);
    let path = decoded.drop_first();
    assert(path =~= key + slash + tail);
    assert(is_first_index_of(path, 0x2f, key.len() as int));
    lemma_first_index_of(path, 0x2f, key.len() as int);
    assert(first_segment(path) =~= key);
    assert(after_first_segment(path) =~= tail);
    vstd::utf8::decode_utf8_encode_utf8(tail);
    assert(in_archive(vstd::utf8::decode_utf8(tail)) == slash + tail);
}

/// `HEAD` is `GET` without the body: the two are answered under the same
/// status with the same headers, and the answer to `HEAD` carries nothing.
pub proof fn lemma_head_like_get(
    waj: Seq<EntryView>,
    style: LocationStyle,
    etag: Seq<char>,
    request_url: Seq<char>,
    headers: Seq<HeaderView>,
    url: Seq<char>,
    fetched: FetchedView,
)
    ensures
        ({
            let get = RequestView { method: Method::Get, url: request_url, headers };
            let head = RequestView { method: Method::Head, url: request_url, headers };
            &&& answer(waj, style, etag, head, url, fetched).status == answer(
                waj,
                style,
                etag,
                get,
                url,
                fetched,
            ).status
            &&& answer(waj, style, etag, head, url, fetched).headers == answer(
                waj,
                style,
                etag,
                get,
                url,
                fetched,
            ).headers
            &&& answer(waj, style, etag, head, url, fetched).body == BodyView::Empty
        }),
{
}

/// A client whose copy is current is told so. A `GET` that carries the
/// archive's validator in `If-None-Match`, for a file whose payload is
/// there, is answered by 304 without body.
pub proof fn lemma_current_copy_is_not_sent(
    waj: Seq<EntryView>,
    style: LocationStyle,
    etag: Seq<char>,
    request: RequestView,
    url: Seq<char>,
    size: u64,
)
    requires
        request.method == Method::Get,
        etag_matches(request.headers, etag),
        valid_utf8(percent_decoded(encode_utf8(url))),
        resolve(waj, percent_decoded(encode_utf8(url))) matches Some(at) && waj[at as int].kind
            is Content,
        size <= usize::MAX,
    ensures
        answer(
            waj,
            style,
            etag,
            request,
            url,
            FetchedView::Bytes(ContentBytesView::Found { size }),
        ).status == 304,
        answer(
            waj,
            style,
            etag,
            request,
            url,
            FetchedView::Bytes(ContentBytesView::Found { size }),
        ).body == BodyView::Empty,
{
}

/// The ranges of a request that asks for the bytes `first..=last`.
pub open spec fn from_to(first: u64, last: u64) -> Seq<RangeSpec> {
    seq![RangeSpec { start: RangeStart::Index(first), end: RangeEnd::Index(last) }]
}

/// The ranges of a request that asks for the last `n` bytes.
pub open spec fn last_bytes(n: u64) -> Seq<RangeSpec> {
    seq![RangeSpec { start: RangeStart::FromLast(n), end: RangeEnd::LastByte }]
}

/// The response to a plain `GET` with ranges `ranges` for a payload of
/// `size` bytes.
pub open spec fn ranged(ranges: Seq<RangeSpec>, size: u64, etag: Seq<char>) -> ResponseView {
    bytes_response(size, false, false, range_outcome_spec(Some(ranges), size), 200, etag)
}

/// A range from the first byte on is answered by 206 with as many bytes as
/// it spans, from the start of the payload.
pub proof fn lemma_range_from_start(last: u64, size: u64, etag: Seq<char>)
    requires
        last < size,
        last < usize::MAX,
    ensures
        ranged(from_to(0, last), size, etag).status == 206,
        ranged(from_to(0, last), size, etag).headers[1] == header(
            "Content-Length"@,
            decimal((last + 1) as nat),
        ),
        ranged(from_to(0, last), size, etag).body == (BodyView::Content {
            offset: 0,
            size: (last + 1) as u64,
        }),
{
    let ranges = from_to(0, last);
    assert(satisfiable(ranges, size));
}

/// A suffix range is answered by 206 with the last bytes of the payload, as
/// many as were asked for.
pub proof fn lemma_suffix_range(n: u64, size: u64, etag: Seq<char>)
    requires
        0 < n <= size,
        n <= usize::MAX,
    ensures
        ranged(last_bytes(n), size, etag).status == 206,
        ranged(last_bytes(n), size, etag).body == (BodyView::Content {
            offset: (size - n) as u64,
            size: n,
        }),
{
    let ranges = last_bytes(n);
    assert(satisfiable(ranges, size));
}

/// A range that starts behind the payload is answered by 416, with the
/// size of the payload in `Content-Range`.
pub proof fn lemma_range_behind_the_end(first: u64, last: u64, size: u64, etag: Seq<char>)
    requires
        first >= size,
    ensures
        ranged(from_to(first, last), size, etag).status == 416,
        ranged(from_to(first, last), size, etag).headers[0] == header(
            "Content-Range"@,
            content_range_unsatisfied(size),
        ),
        ranged(from_to(first, last), size, etag).body == BodyView::Empty,
{
    let ranges = from_to(first, last);
    if satisfiable(ranges, size) {
        assert(resolved_start(ranges[0], size) <= resolved_end(ranges[0], size));
    }
}

/// Several ranges are answered by 416: no answer in parts is given.
pub proof fn lemma_several_ranges(ranges: Seq<RangeSpec>, size: u64, etag: Seq<char>)
    requires
        ranges.len() >= 2,
    ensures
        ranged(ranges, size, etag).status == 416,
        ranged(ranges, size, etag).body == BodyView::Empty,
{
}

/// A range that ends before it starts is answered by 416.
pub proof fn lemma_reversed_range(first: u64, last: u64, size: u64, etag: Seq<char>)
    requires
        first > last,
    ensures
        ranged(from_to(first, last), size, etag).status == 416,
        ranged(from_to(first, last), size, etag).body == BodyView::Empty,
{
    let ranges = from_to(first, last);
    if satisfiable(ranges, size) {
        assert(resolved_start(ranges[0], size) <= resolved_end(ranges[0], size));
    }
}

/// A payload whose pack is missing is answered by a placeholder that no
/// client may cache: a page under 503 for a text type, a picture under 253
/// for any other.
pub proof fn lemma_missing_pack(
    pending: PendingView,
    uuid: Seq<char>,
    location: Seq<char>,
    range: Option<Seq<char>>,
    etag: Seq<char>,
)
    requires
        !pending.fallback,
    ensures
        ({
            let response = finish_spec(
                pending,
                FetchedView::Bytes(ContentBytesView::Missing { uuid, location }),
                range,
                etag,
            );
            let text = shown_as_text(text_of_bytes(pending.mimetype));
            &&& response.status == if text {
                503u16
            } else {
                253u16
            }
            &&& response.headers == seq![
                header(
                    "Content-Type"@,
                    if text {
                        "text/html"@
                    } else {
                        "image/svg+xml"@
                    },
                ),
                header("Cache-Control"@, "max-age=0, no-cache"@),
            ]
            &&& !pending.head_request && !pending.etag_match ==> response.body == BodyView::Text(
                if text {
                    missing_html(uuid, location)
                } else {
                    missing_svg(uuid)
                },
            )
        }),
{
}

/// The bytes of the index page's name hold neither `?` nor `/`.
proof fn lemma_index_page()
    ensures
        index_page().len() == 10,
        forall|k: int| 0 <= k < index_page().len() ==> index_page()[k] != 0x3f && index_page()[k]
            != 0x2f,
{
    reveal_strlit("index.html");
    let chars = "index.html"@;
    assert(vstd::utf8::is_ascii_chars(chars)) by {
        assert forall|k: int| 0 <= k < chars.len() implies (chars[k] as nat) < 128 by {}
    }
    vstd::utf8::is_ascii_chars_encode_utf8(chars);
}

/// A directory is answered by its index page. Where the archive has no
/// entry for the path of a directory itself, a request for that path, which
/// ends in `/` and has no query, comes to what a request for `index.html`
/// in that directory comes to.
pub proof fn lemma_directory_is_its_index(
    waj: Seq<EntryView>,
    style: LocationStyle,
    dir: Seq<u8>,
    head_request: bool,
    etag_match: bool,
)
    requires
        dir.len() > 0,
        dir.last() == 0x2f,
        first_index_of(dir, 0x3f) is None,
        position_of(waj, without_leading_slash(dir)) is None,
    ensures
        handle_get_spec(waj, style, dir, head_request, etag_match) == handle_get_spec(
            waj,
            style,
            dir + index_page(),
            head_request,
            etag_match,
        ),
{
    lemma_index_page();
    let page = dir + index_page();
    assert(first_index_of(page, 0x3f) is None) by {
        assert forall|k: int| 0 <= k < page.len() implies page[k] != 0x3f by {
            if k < dir.len() {
                if dir[k] == 0x3f {
                    lemma_some_first_index(dir, 0x3f, k);
                }
            } else {
                assert(page[k] == index_page()[k - dir.len()]);
            }
        }
        lemma_first_index_of_none(page, 0x3f);
    }
    assert(page.last() == index_page()[9]);
    assert(url_variants_spec(page) =~= seq![page]);
    assert(url_variants_spec(dir) =~= seq![dir, page]);
    assert(resolve_from(waj, seq![dir, page], 2) is None);
    assert(resolve_from(waj, seq![page], 1) is None);
    assert(resolve_from(waj, seq![dir, page], 1) == resolve_from(waj, seq![page], 0));
}

proof fn lemma_some_first_index(s: Seq<u8>, needle: u8, k: int)
    requires
        0 <= k < s.len(),
        s[k] == needle,
    ensures
        first_index_of(s, needle) is Some,
    decreases k,
{
    if exists|i: int| 0 <= i < k && s[i] == needle {
        let i = choose|i: int| 0 <= i < k && s[i] == needle;
        lemma_some_first_index(s, needle, i);
    } else {
        assert(is_first_index_of(s, needle, k));
        lemma_first_index_of(s, needle, k);
    }
}

proof fn lemma_nothing_resolves(candidates: Seq<Seq<u8>>, i: int)
    requires
        0 <= i,
    ensures
        resolve_from(Seq::<EntryView>::empty(), candidates, i) is None,
    decreases candidates.len() - i,
{
    if i < candidates.len() {
        lemma_nothing_found(without_leading_slash(candidates[i]));
        lemma_nothing_resolves(candidates, i + 1);
    }
}

proof fn lemma_nothing_found(path: Seq<u8>)
    ensures
        position_of(Seq::<EntryView>::empty(), path) is None,
{
    assert(found_at(Seq::<EntryView>::empty(), path, None));
    lemma_position_of(Seq::<EntryView>::empty(), path, None);
}

/// An archive without entries answers every `GET` and `HEAD` for a URL that
/// decodes to text by 404, without body.
pub proof fn lemma_empty_archive(
    style: LocationStyle,
    etag: Seq<char>,
    request: RequestView,
    url: Seq<char>,
)
    requires
        request.method != Method::Other,
        valid_utf8(percent_decoded(encode_utf8(url))),
    ensures
        handle_spec(Seq::<EntryView>::empty(), style, etag, request, url) == StepView::Respond(
            empty_response(404),
        ),
{
    let decoded = percent_decoded(encode_utf8(url));
    lemma_nothing_resolves(url_variants_spec(decoded), 0);
    lemma_nothing_found(not_found_page());
}

} // verus!
