//! The request handler of one archive.
//!
//! A request is answered in two steps. [`WajServer::handle`] resolves the
//! URL against the index and either settles the response or names the
//! payload that the response depends on. The caller then asks the container
//! for that payload and hands what it learned to [`WajServer::finish`].

use vstd::prelude::*;
use vstd::string::StringSliceAdditionalSpecFns;
use vstd::utf8::{encode_utf8, valid_utf8};
use crate::create::entry::{EntryKind, EntryView, KindView};
use crate::entry::ContentAddress;
use crate::error::{BaseError, WajFormatError};
use crate::response::{
    build_content_response, content_response, empty_response, find_header, header_value,
    header_views, lossy_text, text_of_bytes, ContentBytes, ContentBytesView, Header, HeaderView,
    Response, ResponseView,
};
use crate::text::copy_bytes;
use crate::url::{
    byte_strings, decode_url, encode_target, percent_decoded, percent_encoded,
    strip_leading_slash, url_variants, url_variants_spec, without_leading_slash,
};
use crate::waj::{position_of, Waj};

verus! {

/// The method of a request, as far as the server tells methods apart.
#[derive(Clone, Copy, Debug, PartialEq, Eq, Structural)]
pub enum Method {
    Get,
    Head,
    Other,
}

/// What the handler reads of a request, besides its URL.
#[derive(Debug)]
pub struct Request {
    pub method: Method,
    /// The URL as the client sent it.
    pub url: String,
    pub headers: Vec<Header>,
}

/// The mathematical content of a [`Request`].
pub struct RequestView {
    pub method: Method,
    pub url: Seq<char>,
    pub headers: Seq<HeaderView>,
}

impl View for Request {
    type V = RequestView;

    open spec fn view(&self) -> RequestView {
        RequestView { method: self.method, url: self.url@, headers: header_views(self.headers@) }
    }
}

/// How the `Location` of a redirect is written.
#[derive(Clone, Copy, Debug, PartialEq, Eq, Structural)]
pub enum LocationStyle {
    /// The target behind a `/`: a path from the root of the archive.
    Rooted,
    /// The target as the archive has it.
    AsStored,
}

/// A response that waits for a payload.
#[derive(Debug)]
pub struct Pending {
    /// Where the payload lives.
    pub address: ContentAddress,
    /// The type recorded for it.
    pub mimetype: Vec<u8>,
    /// The status under which it is served when it is there.
    pub status_code: u16,
    pub head_request: bool,
    pub etag_match: bool,
    /// Whether the payload is the archive's page for missing paths rather
    /// than what the request asked for.
    pub fallback: bool,
}

/// The mathematical content of a [`Pending`].
pub struct PendingView {
    pub address: ContentAddress,
    pub mimetype: Seq<u8>,
    pub status_code: u16,
    pub head_request: bool,
    pub etag_match: bool,
    pub fallback: bool,
}

impl View for Pending {
    type V = PendingView;

    open spec fn view(&self) -> PendingView {
        PendingView {
            address: self.address,
            mimetype: self.mimetype@,
            status_code: self.status_code,
            head_request: self.head_request,
            etag_match: self.etag_match,
            fallback: self.fallback,
        }
    }
}

/// Where the handling of a request stands after the index was consulted.
#[derive(Debug)]
pub enum Step {
    /// The response is settled.
    Respond(Response),
    /// The response depends on a payload.
    Fetch(Pending),
}

/// The mathematical content of a [`Step`].
pub enum StepView {
    Respond(ResponseView),
    Fetch(PendingView),
}

impl View for Step {
    type V = StepView;

    open spec fn view(&self) -> StepView {
        match self {
            Step::Respond(response) => StepView::Respond(response@),
            Step::Fetch(pending) => StepView::Fetch(pending@),
        }
    }
}

/// What the container answered when asked for a payload.
#[derive(Debug)]
pub enum Fetched {
    /// The payload, or the news that its pack is missing.
    Bytes(ContentBytes),
    /// The address points at nothing.
    Invalid,
    /// The container failed; the field is its report.
    Failed(String),
}

/// The mathematical content of a [`Fetched`].
pub enum FetchedView {
    Bytes(ContentBytesView),
    Invalid,
    Failed(Seq<char>),
}

impl View for Fetched {
    type V = FetchedView;

    open spec fn view(&self) -> FetchedView {
        match self {
            Fetched::Bytes(bytes) => FetchedView::Bytes(bytes@),
            Fetched::Invalid => FetchedView::Invalid,
            Fetched::Failed(report) => FetchedView::Failed(report@),
        }
    }
}

/// The validator of an archive: weak, and made of the archive's identifier.
pub open spec fn etag_of(uuid: Seq<char>) -> Seq<char> {
    "W/\""@ + uuid + "\""@
}

/// Makes the validator of the archive whose identifier is `uuid`.
pub fn etag_for(uuid: &str) -> (etag: String)
    ensures
        etag@ == etag_of(uuid@),
{
    String::from_str("W/\"").concat(uuid).concat("\"")
}

/// The path of the page that an archive may hold for missing paths.
pub open spec fn not_found_page() -> Seq<u8> {
    "404.html".spec_bytes()
}

/// The position of the entry that answers the first of `candidates`, from
/// position `i` on, that the index knows. A candidate is looked up without
/// its leading `/`.
pub open spec fn resolve_from(waj: Seq<EntryView>, candidates: Seq<Seq<u8>>, i: int) -> Option<
    usize,
>
    decreases candidates.len() - i,
{
    if i < 0 || i >= candidates.len() {
        None
    } else {
        match position_of(waj, without_leading_slash(candidates[i])) {
            Some(at) => Some(at),
            None => resolve_from(waj, candidates, i + 1),
        }
    }
}

/// The position of the entry that answers `url`.
pub open spec fn resolve(waj: Seq<EntryView>, url: Seq<u8>) -> Option<usize> {
    resolve_from(waj, url_variants_spec(url), 0)
}

/// The `Location` that sends a client to `target`: the target
/// percent-encoded, written in the style `style`.
pub open spec fn location(style: LocationStyle, target: Seq<u8>) -> Seq<char> {
    match style {
        LocationStyle::Rooted => "/"@ + percent_encoded(target),
        LocationStyle::AsStored => percent_encoded(target),
    }
}

/// The response that sends a client to `target`.
pub open spec fn redirect_response(style: LocationStyle, target: Seq<u8>) -> ResponseView {
    empty_response(302).with_header("Location"@, location(style, target))
}

/// Where the handling of a `GET` or `HEAD` request for the decoded `url`
/// stands once the index was consulted.
///
/// A file waits for its payload, to go out under 200, or under 304 where
/// the client's copy is current. A redirect is answered by 302. A path that
/// the index does not know is answered by 404, with the archive's own page
/// for that if it has one.
pub open spec fn handle_get_spec(
    waj: Seq<EntryView>,
    style: LocationStyle,
    url: Seq<u8>,
    head_request: bool,
    etag_match: bool,
) -> StepView {
    match resolve(waj, url) {
        Some(at) => match waj[at as int].kind {
            KindView::Content { mimetype, content } => StepView::Fetch(
                PendingView {
                    address: content,
                    mimetype,
                    status_code: if etag_match {
                        304
                    } else {
                        200
                    },
                    head_request,
                    etag_match,
                    fallback: false,
                },
            ),
            KindView::Redirect { target } => StepView::Respond(redirect_response(style, target)),
        },
        None => match position_of(waj, not_found_page()) {
            Some(at) => match waj[at as int].kind {
                KindView::Content { mimetype, content } => StepView::Fetch(
                    PendingView {
                        address: content,
                        mimetype,
                        status_code: 404,
                        head_request,
                        etag_match,
                        fallback: true,
                    },
                ),
                KindView::Redirect { .. } => StepView::Respond(empty_response(404)),
            },
            None => StepView::Respond(empty_response(404)),
        },
    }
}

/// Whether a request carries the validator `etag` in `If-None-Match`.
pub open spec fn etag_matches(headers: Seq<HeaderView>, etag: Seq<char>) -> bool {
    header_value(headers, "if-none-match"@) == Some(etag)
}

/// Where the handling of a request stands once the index was consulted,
/// for a request whose URL, decoded, is `decoded`. A method other than
/// `GET` and `HEAD` is answered by 500.
pub open spec fn handle_decoded_spec(
    waj: Seq<EntryView>,
    style: LocationStyle,
    etag: Seq<char>,
    request: RequestView,
    decoded: Seq<u8>,
) -> StepView {
    if request.method == Method::Other {
        StepView::Respond(empty_response(500))
    } else {
        handle_get_spec(
            waj,
            style,
            decoded,
            request.method == Method::Head,
            etag_matches(request.headers, etag),
        )
    }
}

/// Where the handling of a request for `url` stands once the index was
/// consulted. The URL is percent-decoded, once; one that does not decode to
/// UTF-8 is answered by 500.
pub open spec fn handle_spec(
    waj: Seq<EntryView>,
    style: LocationStyle,
    etag: Seq<char>,
    request: RequestView,
    url: Seq<char>,
) -> StepView {
    let decoded = percent_decoded(encode_utf8(url));
    if !valid_utf8(decoded) {
        StepView::Respond(empty_response(500))
    } else {
        handle_decoded_spec(waj, style, etag, request, decoded)
    }
}

/// The response to a request for a file, or the error that keeps the
/// server from giving one, once the container has answered.
pub open spec fn finish_get_spec(
    pending: PendingView,
    fetched: FetchedView,
    range: Option<Seq<char>>,
    etag: Seq<char>,
) -> Result<ResponseView, Seq<char>> {
    match fetched {
        FetchedView::Failed(report) => Err(report),
        FetchedView::Invalid => Err(
            "Jbk archive is not a valid Waj archive : "@ + "Content address not valid"@,
        ),
        FetchedView::Bytes(bytes) => if pending.fallback && bytes is Missing {
            Ok(empty_response(404))
        } else {
            Ok(
                content_response(
                    bytes,
                    pending.head_request,
                    pending.etag_match,
                    range,
                    pending.status_code,
                    text_of_bytes(pending.mimetype),
                    etag,
                ),
            )
        },
    }
}

/// The response to a request for a file once the container has answered.
/// Any error is answered by 500.
pub open spec fn finish_spec(
    pending: PendingView,
    fetched: FetchedView,
    range: Option<Seq<char>>,
    etag: Seq<char>,
) -> ResponseView {
    match finish_get_spec(pending, fetched, range, etag) {
        Ok(response) => response,
        Err(_) => empty_response(500),
    }
}

/// The response to a request for `url`, given what the container says of
/// the payload that the request comes to depend on.
pub open spec fn answer(
    waj: Seq<EntryView>,
    style: LocationStyle,
    etag: Seq<char>,
    request: RequestView,
    url: Seq<char>,
    fetched: FetchedView,
) -> ResponseView {
    match handle_spec(waj, style, etag, request, url) {
        StepView::Respond(response) => response,
        StepView::Fetch(pending) => finish_spec(
            pending,
            fetched,
            header_value(request.headers, "Range"@),
            etag,
        ),
    }
}

/// Finds the validator that a request carries in `If-None-Match`.
pub fn get_etag_from_headers(headers: &Vec<Header>) -> (etag: Option<&String>)
    ensures
        etag is Some <==> header_value(header_views(headers@), "if-none-match"@) is Some,
        etag matches Some(v) ==> header_value(header_views(headers@), "if-none-match"@) == Some(
            v@,
        ),
{
    find_header(headers, "if-none-match")
}

/// Finds the `Range` header of a request.
pub fn get_byte_range(request: &Request) -> (range: Option<&String>)
    ensures
        range is Some <==> header_value(request@.headers, "Range"@) is Some,
        range matches Some(v) ==> header_value(request@.headers, "Range"@) == Some(v@),
{
    find_header(&request.headers, "Range")
}

/// The handler of one archive.
pub struct WajServer {
    pub waj: Waj,
    pub etag_value: String,
    pub location_style: LocationStyle,
}

impl WajServer {
    /// The archive is well-formed.
    pub open spec fn wf(&self) -> bool {
        self.waj.wf()
    }

    /// A handler for `waj` that announces `etag_value` as its validator and
    /// writes the locations of redirects from the root of the archive.
    pub fn new(waj: Waj, etag_value: String) -> (server: Self)
        ensures
            server.waj == waj,
            server.etag_value == etag_value,
            server.location_style == LocationStyle::Rooted,
    {
        WajServer { waj, etag_value, location_style: LocationStyle::Rooted }
    }

    /// This handler, writing the locations of redirects in `style`.
    pub fn with_location_style(self, style: LocationStyle) -> (server: Self)
        ensures
            server.waj == self.waj,
            server.etag_value == self.etag_value,
            server.location_style == style,
    {
        WajServer { waj: self.waj, etag_value: self.etag_value, location_style: style }
    }

    /// Resolves a decoded URL against the index.
    pub fn handle_get(&self, url: &[u8], head_request: bool, etag_match: bool) -> (step: Step)
        requires
            self.wf(),
        ensures
            step@ == handle_get_spec(
                self.waj@,
                self.location_style,
                url@,
                head_request,
                etag_match,
            ),
    {
        let variants = url_variants(url);
        let mut i: usize = 0;
        while i < variants.len()
            invariant
                self.wf(),
                i <= variants.len(),
                byte_strings(variants@) == url_variants_spec(url@),
                resolve(self.waj@, url@) == resolve_from(
                    self.waj@,
                    url_variants_spec(url@),
                    i as int,
                ),
            decreases variants.len() - i,
        {
            let path = strip_leading_slash(variants[i].as_slice());
            assert(byte_strings(variants@)[i as int] == variants@[i as int]@);
            if let Some(at) = self.waj.find(path) {
                match self.waj.record(at) {
                    Some(record) => {
                        return match &record.kind {
                            EntryKind::Content(content) => Step::Fetch(
                                Pending {
                                    address: content.content,
                                    mimetype: copy_bytes(content.mimetype.as_slice()),
                                    status_code: if etag_match {
                                        304
                                    } else {
                                        200
                                    },
                                    head_request,
                                    etag_match,
                                    fallback: false,
                                },
                            ),
                            EntryKind::Redirect(target) => {
                                let mut response = Response::empty(302);
                                let encoded = encode_target(target.as_slice());
                                let location = match self.location_style {
                                    LocationStyle::Rooted => String::from_str("/").concat(
                                        encoded.as_str(),
                                    ),
                                    LocationStyle::AsStored => encoded,
                                };
                                response.add_header("Location", location);
                                Step::Respond(response)
                            },
                        };
                    },
                    None => {},
                }
            }
            i += 1;
        }
        if let Some(at) = self.waj.find("404.html".as_bytes()) {
            if let Some(record) = self.waj.record(at) {
                if let EntryKind::Content(content) = &record.kind {
                    return Step::Fetch(
                        Pending {
                            address: content.content,
                            mimetype: copy_bytes(content.mimetype.as_slice()),
                            status_code: 404,
                            head_request,
                            etag_match,
                            fallback: true,
                        },
                    );
                }
            }
        }
        Step::Respond(Response::empty(404))
    }

    /// Takes a request whose URL, decoded, is `url` as far as the index
    /// allows.
    pub fn handle_decoded(&self, request: &Request, url: &[u8]) -> (step: Step)
        requires
            self.wf(),
        ensures
            step@ == handle_decoded_spec(
                self.waj@,
                self.location_style,
                self.etag_value@,
                request@,
                url@,
            ),
    {
        let head_request = match request.method {
            Method::Get => false,
            Method::Head => true,
            Method::Other => {
                return Step::Respond(Response::empty(500));
            },
        };
        let etag_match = match get_etag_from_headers(&request.headers) {
            Some(request_etag) => *request_etag == self.etag_value,
            None => false,
        };
        self.handle_get(url, head_request, etag_match)
    }

    /// Takes a request for `url` as far as the index allows.
    pub fn handle(&self, request: &Request, url: &str) -> (step: Step)
        requires
            self.wf(),
        ensures
            step@ == handle_spec(
                self.waj@,
                self.location_style,
                self.etag_value@,
                request@,
                url@,
            ),
    {
        match decode_url(url) {
            Some(decoded) => self.handle_decoded(request, decoded.as_slice()),
            None => Step::Respond(Response::empty(500)),
        }
    }

    /// Settles the response to a request for a file once the container has
    /// answered, or tells what kept it from doing so.
    pub fn finish_get(&self, request: &Request, pending: &Pending, fetched: &Fetched) -> (response:
        Result<Response, BaseError>)
        ensures
            response matches Ok(r) ==> finish_get_spec(
                pending@,
                fetched@,
                header_value(request@.headers, "Range"@),
                self.etag_value@,
            ) == Ok::<ResponseView, Seq<char>>(r@),
            response matches Err(e) ==> finish_get_spec(
                pending@,
                fetched@,
                header_value(request@.headers, "Range"@),
                self.etag_value@,
            ) == Err::<ResponseView, Seq<char>>(e.message_spec()),
    {
        match fetched {
            Fetched::Failed(report) => Err(BaseError::Jbk(report.clone())),
            Fetched::Invalid => Err(
                BaseError::WajFormatError(WajFormatError("Content address not valid")),
            ),
            Fetched::Bytes(bytes) => {
                let missing = match bytes {
                    ContentBytes::Missing { .. } => true,
                    ContentBytes::Found { .. } => false,
                };
                if pending.fallback && missing {
                    Ok(Response::empty(404))
                } else {
                    let mimetype = lossy_text(pending.mimetype.as_slice());
                    Ok(
                        build_content_response(
                            get_byte_range(request),
                            bytes,
                            pending.head_request,
                            pending.etag_match,
                            pending.status_code,
                            mimetype.as_str(),
                            self.etag_value.as_str(),
                        ),
                    )
                }
            },
        }
    }

    /// Settles the response to a request for a file once the container has
    /// answered.
    pub fn finish(&self, request: &Request, pending: &Pending, fetched: &Fetched) -> (response:
        Response)
        ensures
            response@ == finish_spec(
                pending@,
                fetched@,
                header_value(request@.headers, "Range"@),
                self.etag_value@,
            ),
    {
        match self.finish_get(request, pending, fetched) {
            Ok(response) => response,
            Err(_) => Response::empty(500),
        }
    }
}

} // verus!
