//! HTTP responses as plain values, and how the response to a resolved entry
//! is put together.

use vstd::prelude::*;
use vstd::utf8::{decode_utf8, encode_utf8, valid_utf8};
use crate::range::{range_header_syntax, range_outcome_spec, requested_range, RangeOutcome};
use crate::text::{
    decimal, decimal_string, eq_ignore_ascii_case, push_decimal, same_ignoring_ascii_case,
};

verus! {

/// One header line.
#[derive(Debug)]
pub struct Header {
    pub field: String,
    pub value: String,
}

/// The mathematical content of a [`Header`].
pub struct HeaderView {
    pub field: Seq<char>,
    pub value: Seq<char>,
}

impl View for Header {
    type V = HeaderView;

    open spec fn view(&self) -> HeaderView {
        HeaderView { field: self.field@, value: self.value@ }
    }
}

/// The header lines of a list, each by its content.
pub open spec fn header_views(headers: Seq<Header>) -> Seq<HeaderView> {
    Seq::new(headers.len(), |i: int| headers[i]@)
}

/// The header line `field: value`.
pub open spec fn header(field: Seq<char>, value: Seq<char>) -> HeaderView {
    HeaderView { field, value }
}

impl Header {
    pub fn new(field: &str, value: String) -> (h: Header)
        ensures
            h@ == header(field@, value@),
    {
        Header { field: String::from_str(field), value }
    }
}

/// Whether a header field is `name`, whatever the case of its letters.
pub open spec fn field_is(field: Seq<char>, name: Seq<char>) -> bool {
    same_ignoring_ascii_case(encode_utf8(field), encode_utf8(name))
}

/// The value of the first header of `headers` whose field is `name` from
/// position `from` on.
pub open spec fn header_value_from(headers: Seq<HeaderView>, name: Seq<char>, from: int) -> Option<
    Seq<char>,
>
    decreases headers.len() - from,
{
    if from < 0 || from >= headers.len() {
        None
    } else if field_is(headers[from].field, name) {
        Some(headers[from].value)
    } else {
        header_value_from(headers, name, from + 1)
    }
}

/// The value of the first header of `headers` whose field is `name`.
pub open spec fn header_value(headers: Seq<HeaderView>, name: Seq<char>) -> Option<Seq<char>> {
    header_value_from(headers, name, 0)
}

/// Finds the first header whose field is `name`, whatever the case of its
/// letters.
pub fn find_header<'a>(headers: &'a Vec<Header>, name: &str) -> (value: Option<&'a String>)
    ensures
        value is Some <==> header_value(header_views(headers@), name@) is Some,
        value matches Some(v) ==> header_value(header_views(headers@), name@) == Some(v@),
{
    let mut i: usize = 0;
    while i < headers.len()
        invariant
            i <= headers.len(),
            header_value(header_views(headers@), name@) == header_value_from(
                header_views(headers@),
                name@,
                i as int,
            ),
        decreases headers.len() - i,
    {
        if eq_ignore_ascii_case(headers[i].field.as_str().as_bytes(), name.as_bytes()) {
            return Some(&headers[i].value);
        }
        i += 1;
    }
    None
}

/// What a response carries after its headers.
#[derive(Debug)]
pub enum Body {
    /// Nothing.
    Empty,
    /// `size` bytes of the resolved entry's payload, from `offset` on.
    Content { offset: u64, size: u64 },
    /// A text made up by the server.
    Text(String),
}

/// The mathematical content of a [`Body`].
pub enum BodyView {
    Empty,
    Content { offset: u64, size: u64 },
    Text(Seq<char>),
}

impl View for Body {
    type V = BodyView;

    open spec fn view(&self) -> BodyView {
        match self {
            Body::Empty => BodyView::Empty,
            Body::Content { offset, size } => BodyView::Content { offset: *offset, size: *size },
            Body::Text(text) => BodyView::Text(text@),
        }
    }
}

/// A response, ready to be sent.
#[derive(Debug)]
pub struct Response {
    pub status: u16,
    pub headers: Vec<Header>,
    pub body: Body,
}

/// The mathematical content of a [`Response`].
pub struct ResponseView {
    pub status: u16,
    pub headers: Seq<HeaderView>,
    pub body: BodyView,
}

impl View for Response {
    type V = ResponseView;

    open spec fn view(&self) -> ResponseView {
        ResponseView {
            status: self.status,
            headers: header_views(self.headers@),
            body: self.body@,
        }
    }
}

impl ResponseView {
    /// This response with one more header at the end.
    pub open spec fn with_header(self, field: Seq<char>, value: Seq<char>) -> ResponseView {
        ResponseView { headers: self.headers.push(header(field, value)), ..self }
    }
}

/// The response with status `status`, no header and no body.
pub open spec fn empty_response(status: u16) -> ResponseView {
    ResponseView { status, headers: Seq::empty(), body: BodyView::Empty }
}

impl Response {
    /// A response without header or body.
    pub fn empty(status: u16) -> (response: Response)
        ensures
            response@ == empty_response(status),
    {
        let response = Response { status, headers: Vec::new(), body: Body::Empty };
        assert(response@.headers =~= Seq::empty());
        response
    }

    /// Adds a header after those that the response has.
    pub fn add_header(&mut self, field: &str, value: String)
        ensures
            final(self)@ == old(self)@.with_header(field@, value@),
    {
        self.headers.push(Header::new(field, value));
        assert(self@.headers =~= old(self)@.headers.push(header(field@, value@)));
    }

    /// The value of the first header whose field is `name`, whatever the
    /// case of its letters.
    pub fn header(&self, name: &str) -> (value: Option<&String>)
        ensures
            value is Some <==> header_value(self@.headers, name@) is Some,
            value matches Some(v) ==> header_value(self@.headers, name@) == Some(v@),
    {
        find_header(&self.headers, name)
    }
}

/// The text that `String::from_utf8_lossy` makes of `bytes`.
pub uninterp spec fn utf8_lossy(bytes: Seq<u8>) -> Seq<char>;

/// The text that stands for `bytes` in a header: what they decode to where
/// they are well-formed UTF-8, and else what `String::from_utf8_lossy`
/// makes of them.
pub open spec fn text_of_bytes(bytes: Seq<u8>) -> Seq<char> {
    if valid_utf8(bytes) {
        decode_utf8(bytes)
    } else {
        utf8_lossy(bytes)
    }
}

/// Reads bytes as text, whatever they hold.
///
/// Calls `String::from_utf8_lossy`. Well-formed UTF-8 is decoded as it
/// stands; of other input the contract only names the outcome.
#[verifier::external_body]
pub(crate) fn lossy_text(bytes: &[u8]) -> (text: String)
    ensures
        text@ == utf8_lossy(bytes@),
        valid_utf8(bytes@) ==> text@ == decode_utf8(bytes@),
{
    String::from_utf8_lossy(bytes).into_owned()
}

/// The first part of the picture shown in place of a payload whose pack is
/// missing, up to the pack's identifier.
pub const MISSING_SVG_HEAD: &'static str = r##"<?xml version="1.0" encoding="utf-8"?>
                                <svg width="800px" height="800px" viewBox="0 0 24 24" fill="none" xmlns="http://www.w3.org/2000/svg" xmlns:xlink="http://www.w3.org/1999/xlink" version="2.0">
                                    <path d="M10.5 15L13.5 12M13.5 15L10.5 12" stroke="#1C274C" stroke-width="1.5" stroke-linecap="round"/>
                                    <path d="M22 11.7979C22 9.16554 22 7.84935 21.2305 6.99383C21.1598 6.91514 21.0849 6.84024 21.0062 6.76946C20.1506 6 18.8345 6 16.2021 6H15.8284C14.6747 6 14.0979 6 13.5604 5.84678C13.2651 5.7626 12.9804 5.64471 12.7121 5.49543C12.2237 5.22367 11.8158 4.81578 11 4L10.4497 3.44975C10.1763 3.17633 10.0396 3.03961 9.89594 2.92051C9.27652 2.40704 8.51665 2.09229 7.71557 2.01738C7.52976 2 7.33642 2 6.94975 2C6.06722 2 5.62595 2 5.25839 2.06935C3.64031 2.37464 2.37464 3.64031 2.06935 5.25839C2 5.62595 2 6.06722 2 6.94975M21.9913 16C21.9554 18.4796 21.7715 19.8853 20.8284 20.8284C19.6569 22 17.7712 22 14 22H10C6.22876 22 4.34315 22 3.17157 20.8284C2 19.6569 2 17.7712 2 14V11" stroke="#1C274C" stroke-width="1.5" stroke-linecap="round"/>
                                    <text x="3" y="9" font-size="2" textLength="17" lengthAdjust="spacingAndGlyphs" fill="black">Missing pack</text>
                                    <text x="4" y="20" font-size="2" textLength="16" lengthAdjust="spacingAndGlyphs" fill="black">"##;

/// The rest of that picture.
pub const MISSING_SVG_TAIL: &'static str = r##"</text>
                                </svg>"##;

/// The page shown in place of a text payload whose pack is missing.
pub open spec fn missing_html(uuid: Seq<char>, location: Seq<char>) -> Seq<char> {
    "<h1>Missing contentPack "@ + uuid + ".</h1><p>Declared location is <pre>"@ + location
        + "</pre></p><p>Found the pack and you are good !!</p>"@
}

/// The picture shown in place of any other payload whose pack is missing.
pub open spec fn missing_svg(uuid: Seq<char>) -> Seq<char> {
    MISSING_SVG_HEAD@ + uuid + MISSING_SVG_TAIL@
}

/// Whether a placeholder for a payload of this type is a page of text
/// rather than a picture.
pub open spec fn shown_as_text(mimetype: Seq<char>) -> bool {
    mimetype == "text/html"@ || mimetype == "text/css"@ || mimetype == "application/javascript"@
}

/// What the container says of a payload.
#[derive(Debug)]
pub enum ContentBytes {
    /// The payload is there and has this many bytes.
    Found { size: u64 },
    /// The payload's pack is declared by the archive but is not there.
    Missing { uuid: String, location: String },
}

/// The mathematical content of a [`ContentBytes`].
pub enum ContentBytesView {
    Found { size: u64 },
    Missing { uuid: Seq<char>, location: Seq<char> },
}

impl View for ContentBytes {
    type V = ContentBytesView;

    open spec fn view(&self) -> ContentBytesView {
        match self {
            ContentBytes::Found { size } => ContentBytesView::Found { size: *size },
            ContentBytes::Missing { uuid, location } => ContentBytesView::Missing {
                uuid: uuid@,
                location: location@,
            },
        }
    }
}

/// The headers that let a client cache a payload: it changes only when the
/// archive does.
pub open spec fn cache_headers(etag: Seq<char>) -> Seq<HeaderView> {
    seq![
        header("Cache-Control"@, "max-age=86400, must-revalidate"@),
        header("ETag"@, etag),
        header("Accept-Ranges"@, "bytes"@),
    ]
}

/// The value of `Content-Range` for the bytes `start..=end` of `size`.
pub open spec fn content_range(start: u64, end: u64, size: u64) -> Seq<char> {
    "bytes "@ + decimal(start as nat) + "-"@ + decimal(end as nat) + "/"@ + decimal(size as nat)
}

/// The value of `Content-Range` where no range of `size` bytes can be
/// served.
pub open spec fn content_range_unsatisfied(size: u64) -> Seq<char> {
    "bytes */"@ + decimal(size as nat)
}

/// The range that applies to a request: none where the client's copy is
/// current or the request names no range.
pub open spec fn applicable_range(etag_match: bool, range: Option<Seq<char>>, size: u64)
    -> RangeOutcome {
    if etag_match {
        RangeOutcome::Whole
    } else {
        match range {
            None => RangeOutcome::Whole,
            Some(value) => range_outcome_spec(range_header_syntax(value), size),
        }
    }
}

/// The response that serves a payload of `size` bytes.
///
/// Without a range the whole payload goes out under `status`, announced by
/// `Content-Length`; the body is left out for a `HEAD` request and where the
/// client's copy is current. One range gives 206 with the bytes asked for,
/// several ranges or none that can be served give 416. A payload or a part
/// too large for this machine to address gives 500.
pub open spec fn bytes_response(
    size: u64,
    head_request: bool,
    etag_match: bool,
    range: RangeOutcome,
    status: u16,
    etag: Seq<char>,
) -> ResponseView {
    match range {
        RangeOutcome::Whole => if size > usize::MAX {
            empty_response(500)
        } else {
            ResponseView {
                status,
                headers: seq![header("Content-Length"@, decimal(size as nat))] + cache_headers(
                    etag,
                ),
                body: if !head_request && !etag_match {
                    BodyView::Content { offset: 0, size }
                } else {
                    BodyView::Empty
                },
            }
        },
        RangeOutcome::Single { start, end } => if end + 1 - start > usize::MAX {
            ResponseView { status: 500, headers: cache_headers(etag), body: BodyView::Empty }
        } else {
            ResponseView {
                status: 206,
                headers: seq![
                    header("Content-Range"@, content_range(start, end, size)),
                    header("Content-Length"@, decimal((end + 1 - start) as nat)),
                ] + cache_headers(etag),
                body: if head_request {
                    BodyView::Empty
                } else {
                    BodyView::Content { offset: start, size: (end + 1 - start) as u64 }
                },
            }
        },
        RangeOutcome::Several => ResponseView {
            status: 416,
            headers: cache_headers(etag),
            body: BodyView::Empty,
        },
        RangeOutcome::Unsatisfiable => ResponseView {
            status: 416,
            headers: seq![header("Content-Range"@, content_range_unsatisfied(size))]
                + cache_headers(etag),
            body: BodyView::Empty,
        },
    }
}

/// The response that stands in for a payload whose pack is missing: a page
/// under 503 for text, a picture under 253 for the rest, never to be cached.
pub open spec fn missing_response(
    uuid: Seq<char>,
    location: Seq<char>,
    head_request: bool,
    etag_match: bool,
    mimetype: Seq<char>,
) -> ResponseView {
    let text = shown_as_text(mimetype);
    ResponseView {
        status: if text {
            503
        } else {
            253
        },
        headers: seq![
            header(
                "Content-Type"@,
                if text {
                    "text/html"@
                } else {
                    "image/svg+xml"@
                },
            ),
            header("Cache-Control"@, "max-age=0, no-cache"@),
        ],
        body: if !head_request && !etag_match {
            BodyView::Text(
                if text {
                    missing_html(uuid, location)
                } else {
                    missing_svg(uuid)
                },
            )
        } else {
            BodyView::Empty
        },
    }
}

/// The response to a request for an entry whose payload is `bytes`.
pub open spec fn content_response(
    bytes: ContentBytesView,
    head_request: bool,
    etag_match: bool,
    range: Option<Seq<char>>,
    status: u16,
    mimetype: Seq<char>,
    etag: Seq<char>,
) -> ResponseView {
    match bytes {
        ContentBytesView::Missing { uuid, location } => missing_response(
            uuid,
            location,
            head_request,
            etag_match,
            mimetype,
        ),
        ContentBytesView::Found { size } => bytes_response(
            size,
            head_request,
            etag_match,
            applicable_range(etag_match, range, size),
            status,
            etag,
        ).with_header("Content-Type"@, mimetype),
    }
}

/// A response under `status_code` that carries `body` only where
/// `with_content` says so.
pub fn build_response_from_read(body: Body, with_content: bool, status_code: u16) -> (response:
    Response)
    ensures
        response@ == (ResponseView {
            status: status_code,
            headers: Seq::empty(),
            body: if with_content {
                body@
            } else {
                BodyView::Empty
            },
        }),
{
    if with_content {
        let response = Response { status: status_code, headers: Vec::new(), body };
        assert(response@.headers =~= Seq::empty());
        response
    } else {
        Response::empty(status_code)
    }
}

fn add_cache_headers(response: &mut Response, etag: &str)
    ensures
        final(response)@ == (ResponseView {
            headers: old(response)@.headers + cache_headers(etag@),
            ..old(response)@
        }),
{
    response.add_header("Cache-Control", String::from_str("max-age=86400, must-revalidate"));
    response.add_header("ETag", String::from_str(etag));
    response.add_header("Accept-Ranges", String::from_str("bytes"));
    assert(response@.headers =~= old(response)@.headers + cache_headers(etag@));
}

/// Builds the response that serves a payload of `content_size` bytes for
/// the range outcome `range`.
pub fn build_response_for_range(
    content_size: u64,
    head_request: bool,
    etag_match: bool,
    range: RangeOutcome,
    status_code: u16,
    etag: &str,
) -> (response: Response)
    requires
        range matches RangeOutcome::Single { start, end } ==> start <= end < content_size,
    ensures
        response@ == bytes_response(
            content_size,
            head_request,
            etag_match,
            range,
            status_code,
            etag@,
        ),
{
    let with_content = !head_request && !etag_match;
    let mut response = match range {
        RangeOutcome::Whole => {
            if content_size > usize::MAX as u64 {
                return Response::empty(500);
            }
            let mut response = build_response_from_read(
                Body::Content { offset: 0, size: content_size },
                with_content,
                status_code,
            );
            response.add_header("Content-Length", decimal_string(content_size));
            response
        },
        RangeOutcome::Single { start, end } => {
            let size = end + 1 - start;
            if size > usize::MAX as u64 {
                Response::empty(500)
            } else {
                let mut value = String::from_str("bytes ");
                push_decimal(&mut value, start);
                value.append("-");
                push_decimal(&mut value, end);
                value.append("/");
                push_decimal(&mut value, content_size);
                let mut response = build_response_from_read(
                    Body::Content { offset: start, size },
                    !head_request,
                    206,
                );
                response.add_header("Content-Range", value);
                response.add_header("Content-Length", decimal_string(size));
                response
            }
        },
        RangeOutcome::Several => Response::empty(416),
        RangeOutcome::Unsatisfiable => {
            let mut value = String::from_str("bytes */");
            push_decimal(&mut value, content_size);
            let mut response = Response::empty(416);
            response.add_header("Content-Range", value);
            response
        },
    };
    add_cache_headers(&mut response, etag);
    assert(response@.headers =~= bytes_response(
        content_size,
        head_request,
        etag_match,
        range,
        status_code,
        etag@,
    ).headers);
    response
}

/// Builds the response that serves a payload of `content_size` bytes to a
/// request whose `Range` header, if it has one, is `range`.
pub fn build_response_from_bytes(
    range: Option<&String>,
    content_size: u64,
    head_request: bool,
    etag_match: bool,
    status_code: u16,
    etag: &str,
) -> (response: Response)
    ensures
        response@ == bytes_response(
            content_size,
            head_request,
            etag_match,
            applicable_range(
                etag_match,
                match range {
                    Some(v) => Some(v@),
                    None => None,
                },
                content_size,
            ),
            status_code,
            etag@,
        ),
{
    let outcome = if etag_match {
        RangeOutcome::Whole
    } else {
        match range {
            None => RangeOutcome::Whole,
            Some(value) => requested_range(value.as_str(), content_size),
        }
    };
    build_response_for_range(content_size, head_request, etag_match, outcome, status_code, etag)
}

/// Builds the response to a request for an entry of type `mimetype` whose
/// payload is `bytes`. A payload whose pack is missing is answered by a
/// placeholder.
pub fn build_content_response(
    range: Option<&String>,
    bytes: &ContentBytes,
    head_request: bool,
    etag_match: bool,
    status_code: u16,
    mimetype: &str,
    etag: &str,
) -> (response: Response)
    ensures
        response@ == content_response(
            bytes@,
            head_request,
            etag_match,
            match range {
                Some(v) => Some(v@),
                None => None,
            },
            status_code,
            mimetype@,
            etag@,
        ),
{
    match bytes {
        ContentBytes::Missing { uuid, location } => {
            let as_text = String::from_str(mimetype) == String::from_str("text/html")
                || String::from_str(mimetype) == String::from_str("text/css") || String::from_str(
                mimetype,
            ) == String::from_str("application/javascript");
            let (msg, shown, status) = if as_text {
                let msg = String::from_str("<h1>Missing contentPack ").concat(
                    uuid.as_str(),
                ).concat(".</h1><p>Declared location is <pre>").concat(location.as_str()).concat(
                    "</pre></p><p>Found the pack and you are good !!</p>",
                );
                (msg, "text/html", 503u16)
            } else {
                let msg = String::from_str(MISSING_SVG_HEAD).concat(uuid.as_str()).concat(
                    MISSING_SVG_TAIL,
                );
                (msg, "image/svg+xml", 253u16)
            };
            let mut response = build_response_from_read(
                Body::Text(msg),
                !head_request && !etag_match,
                status,
            );
            response.add_header("Content-Type", String::from_str(shown));
            response.add_header("Cache-Control", String::from_str("max-age=0, no-cache"));
            assert(response@.headers =~= missing_response(
                uuid@,
                location@,
                head_request,
                etag_match,
                mimetype@,
            ).headers);
            response
        },
        ContentBytes::Found { size } => {
            let mut response = build_response_from_bytes(
                range,
                *size,
                head_request,
                etag_match,
                status_code,
                etag,
            );
            response.add_header("Content-Type", String::from_str(mimetype));
            response
        },
    }
}

} // verus!
