//! Request URLs: percent-coding and the archive paths a URL may stand for.

use vstd::prelude::*;
use vstd::string::StringSliceAdditionalSpecFns;
use vstd::utf8::valid_utf8;
use crate::text::{append_bytes, copy_bytes, find_byte, first_index_of};

verus! {

/// The value of an ASCII hexadecimal digit, in either case.
pub open spec fn hex_value(b: u8) -> Option<int> {
    if 0x30 <= b <= 0x39 {
        Some(b - 0x30)
    } else if 0x41 <= b <= 0x46 {
        Some(b - 0x41 + 10)
    } else if 0x61 <= b <= 0x66 {
        Some(b - 0x61 + 10)
    } else {
        None
    }
}

/// Whether a `%` at position `i` of `s` opens an escape: two hexadecimal
/// digits follow it.
pub open spec fn is_escape_at(s: Seq<u8>, i: int) -> bool {
    &&& 0 <= i
    &&& i + 2 < s.len()
    &&& s[i] == 0x25
    &&& hex_value(s[i + 1]) is Some
    &&& hex_value(s[i + 2]) is Some
}

/// `s` from position `i` on with every escape `%XX` replaced by the byte it
/// names. A `%` that opens no escape stands for itself.
pub open spec fn percent_decoded_from(s: Seq<u8>, i: int) -> Seq<u8>
    decreases s.len() - i,
{
    if i < 0 || i >= s.len() {
        Seq::empty()
    } else if is_escape_at(s, i) {
        seq![(16 * hex_value(s[i + 1])->0 + hex_value(s[i + 2])->0) as u8] + percent_decoded_from(
            s,
            i + 3,
        )
    } else {
        seq![s[i]] + percent_decoded_from(s, i + 1)
    }
}

/// The percent-decoding of `s`.
pub open spec fn percent_decoded(s: Seq<u8>) -> Seq<u8> {
    percent_decoded_from(s, 0)
}

/// The upper-case hexadecimal digit for `n`.
pub open spec fn hex_upper(n: int) -> char
    recommends
        0 <= n < 16,
{
    if n < 10 {
        (0x30 + n) as u8 as char
    } else {
        (0x41 + n - 10) as u8 as char
    }
}

/// Whether a byte is escaped in a `Location` header: C0 controls, DEL and
/// everything outside ASCII.
pub open spec fn needs_escape(b: u8) -> bool {
    b < 0x20 || b >= 0x7f
}

/// `s` with every byte that needs it written as `%XX`, upper-case.
pub open spec fn percent_encoded(s: Seq<u8>) -> Seq<char>
    decreases s.len(),
{
    if s.len() == 0 {
        Seq::empty()
    } else if needs_escape(s[0]) {
        seq!['%', hex_upper(s[0] as int / 16), hex_upper(s[0] as int % 16)] + percent_encoded(
            s.drop_first(),
        )
    } else {
        seq![s[0] as char] + percent_encoded(s.drop_first())
    }
}

/// Percent-decodes a URL and checks that the outcome is UTF-8.
///
/// Calls `percent_encoding::percent_decode_str(..).decode_utf8()`. The
/// contract restates what that iterator does byte by byte, and that
/// `decode_utf8` fails exactly on bytes that are not well-formed UTF-8.
#[verifier::external_body]
pub(crate) fn decode_url(url: &str) -> (decoded: Option<Vec<u8>>)
    ensures
        decoded is Some <==> valid_utf8(percent_decoded(url.spec_bytes())),
        decoded matches Some(bytes) ==> bytes@ == percent_decoded(url.spec_bytes()),
{
    let text = percent_encoding::percent_decode_str(url).decode_utf8().ok()?;
    Some(text.into_owned().into_bytes())
}

/// Percent-encodes a redirect target for a `Location` header.
///
/// Calls `percent_encoding::percent_encode` with the set `CONTROLS`, which
/// escapes the bytes below 0x20, 0x7F and all bytes from 0x80 up.
#[verifier::external_body]
pub(crate) fn encode_target(target: &[u8]) -> (encoded: String)
    ensures
        encoded@ == percent_encoded(target@),
{
    percent_encoding::percent_encode(target, percent_encoding::CONTROLS).to_string()
}

/// The bytes of `index.html`, the page that stands for a directory.
pub open spec fn index_page() -> Seq<u8> {
    "index.html".spec_bytes()
}

/// `url` up to its query string: everything before the first `?`.
pub open spec fn without_query(url: Seq<u8>) -> Seq<u8> {
    match first_index_of(url, 0x3f) {
        Some(i) => url.take(i),
        None => url,
    }
}

/// The paths under which the resource of a URL is looked up, in order: the
/// URL as given, the URL without its query string if it has one, and, where
/// that ends in `/`, the directory's index page.
pub open spec fn url_variants_spec(url: Seq<u8>) -> Seq<Seq<u8>> {
    let base = without_query(url);
    let as_given = seq![url];
    let unqueried = if first_index_of(url, 0x3f) is Some {
        as_given.push(base)
    } else {
        as_given
    };
    if base.len() > 0 && base.last() == 0x2f {
        unqueried.push(base + index_page())
    } else {
        unqueried
    }
}

/// The byte strings that a vector of buffers holds.
pub open spec fn byte_strings(v: Seq<Vec<u8>>) -> Seq<Seq<u8>> {
    Seq::new(v.len(), |i: int| v[i]@)
}

/// Lists the paths under which the resource of `url` is looked up.
pub fn url_variants(url: &[u8]) -> (variants: Vec<Vec<u8>>)
    ensures
        byte_strings(variants@) == url_variants_spec(url@),
{
    let mut variants: Vec<Vec<u8>> = Vec::new();
    variants.push(copy_bytes(url));
    let query = find_byte(url, 0x3f);
    let end: usize = match query {
        Some(i) => {
            let base = vstd::slice::slice_subrange(url, 0, i);
            variants.push(copy_bytes(base));
            i
        },
        None => url.len(),
    };
    let base = vstd::slice::slice_subrange(url, 0, end);
    assert(base@ =~= without_query(url@));
    if end > 0 && url[end - 1] == 0x2f {
        let mut page = copy_bytes(base);
        append_bytes(&mut page, "index.html".as_bytes());
        variants.push(page);
    }
    assert(byte_strings(variants@) =~~= url_variants_spec(url@));
    variants
}

/// `url` without one leading `/`, if it has one.
pub open spec fn without_leading_slash(url: Seq<u8>) -> Seq<u8> {
    if url.len() > 0 && url[0] == 0x2f {
        url.drop_first()
    } else {
        url
    }
}

/// Drops one leading `/`: archive paths do not start with one.
pub fn strip_leading_slash(url: &[u8]) -> (path: &[u8])
    ensures
        path@ == without_leading_slash(url@),
{
    if url.len() > 0 && url[0] == 0x2f {
        let path = vstd::slice::slice_subrange(url, 1, url.len());
        assert(path@ =~= url@.drop_first());
        path
    } else {
        url
    }
}

} // verus!
