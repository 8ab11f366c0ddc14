//! Choosing the archive that answers a request.

use vstd::prelude::*;
use vstd::utf8::{encode_utf8, valid_utf8};
use crate::response::{empty_response, find_header, header_value, Response, ResponseView};
use crate::serve::handler::{
    handle_decoded_spec, handle_spec, Request, RequestView, Step, StepView, WajServer,
};
use crate::text::{append_bytes, bytes_equal, find_byte, first_index_of};
use crate::url::{decode_url, percent_decoded};

verus! {

/// Reads bytes as text if they are well-formed UTF-8.
///
/// Calls `String::from_utf8`, which fails exactly on bytes that are not
/// well-formed UTF-8 and otherwise keeps them as they are.
#[verifier::external_body]
pub(crate) fn text_of(bytes: Vec<u8>) -> (text: Option<String>)
    ensures
        text is Some <==> valid_utf8(bytes@),
        text matches Some(s) ==> encode_utf8(s@) == bytes@,
{
    String::from_utf8(bytes).ok()
}

/// Picks the handler of a request and the URL that this handler answers.
pub trait Router {
    /// Every handler that the router may pick is well-formed.
    spec fn wf(&self) -> bool;

    /// The handler that the router picks for `request`, and the URL it
    /// hands to it.
    spec fn routed(&self, request: RequestView) -> Option<(WajServer, Seq<char>)>;

    /// Whether what the router hands on is part of a URL that it has
    /// decoded, to be read as it stands, rather than a URL as a client sent
    /// it, still to be decoded.
    spec fn hands_on_decoded(&self) -> bool;

    fn route(&self, request: &Request) -> (target: Option<(&WajServer, String)>)
        requires
            self.wf(),
        ensures
            target is Some <==> self.routed(request@) is Some,
            target matches Some((server, url)) ==> self.routed(request@) == Some((*server, url@))
                && server.wf(),
    ;

    /// Tells whether what `route` hands on is decoded already.
    fn decodes(&self) -> (decoded: bool)
        ensures
            decoded == self.hands_on_decoded(),
    ;
}

/// The URL, decoded, that a handler answers for the decoded rest `rest` of
/// a longer URL: the rest behind a `/`, as a path from the root of the
/// archive.
pub open spec fn in_archive(rest: Seq<char>) -> Seq<u8> {
    seq![0x2fu8] + encode_utf8(rest)
}

/// What becomes of a request: the handler that `router` picks for it and
/// how far that handler takes it, or `None` where no archive answers.
/// Whatever the router, the URL of the request is percent-decoded once.
pub open spec fn begun<R: Router>(router: &R, request: RequestView) -> Option<
    (WajServer, StepView),
> {
    match router.routed(request) {
        None => None,
        Some((picked, url)) => Some(
            (
                picked,
                if router.hands_on_decoded() {
                    handle_decoded_spec(
                        picked.waj@,
                        picked.location_style,
                        picked.etag_value@,
                        request,
                        in_archive(url),
                    )
                } else {
                    handle_spec(
                        picked.waj@,
                        picked.location_style,
                        picked.etag_value@,
                        request,
                        url,
                    )
                },
            ),
        ),
    }
}

impl Router for WajServer {
    open spec fn wf(&self) -> bool {
        self.waj.wf()
    }

    /// One archive answers every request, under the URL of the request.
    open spec fn routed(&self, request: RequestView) -> Option<(WajServer, Seq<char>)> {
        Some((*self, request.url))
    }

    open spec fn hands_on_decoded(&self) -> bool {
        false
    }

    fn route(&self, request: &Request) -> (target: Option<(&WajServer, String)>) {
        Some((self, request.url.clone()))
    }

    fn decodes(&self) -> (decoded: bool) {
        false
    }
}

/// The position of the first of `names` that is `name`, from `i` on.
pub open spec fn named_from(names: Seq<Seq<u8>>, name: Seq<u8>, i: int) -> Option<int>
    decreases names.len() - i,
{
    if i < 0 || i >= names.len() {
        None
    } else if names[i] == name {
        Some(i)
    } else {
        named_from(names, name, i + 1)
    }
}

/// The names under which a table lists its handlers, as bytes.
pub open spec fn names_of(table: Seq<(String, WajServer)>) -> Seq<Seq<u8>> {
    Seq::new(table.len(), |i: int| encode_utf8(table[i].0@))
}

/// Every handler of a table is well-formed.
pub open spec fn table_wf(table: Seq<(String, WajServer)>) -> bool {
    forall|i: int| 0 <= i < table.len() ==> (#[trigger] table[i]).1.wf()
}

/// The handler that a table lists under `name`: the first, should the name
/// occur again.
pub open spec fn handler_named(table: Seq<(String, WajServer)>, name: Seq<u8>) -> Option<
    WajServer,
> {
    match named_from(names_of(table), name, 0) {
        Some(i) => Some(table[i].1),
        None => None,
    }
}

fn find_handler<'a>(table: &'a Vec<(String, WajServer)>, name: &[u8]) -> (handler: Option<
    &'a WajServer,
>)
    requires
        table_wf(table@),
    ensures
        handler is Some <==> handler_named(table@, name@) is Some,
        handler matches Some(server) ==> handler_named(table@, name@) == Some(*server)
            && server.wf(),
{
    let mut i: usize = 0;
    while i < table.len()
        invariant
            i <= table.len(),
            table_wf(table@),
            named_from(names_of(table@), name@, 0) == named_from(names_of(table@), name@, i as int),
        decreases table.len() - i,
    {
        assert(names_of(table@)[i as int] == encode_utf8(table@[i as int].0@));
        if bytes_equal(table[i].0.as_str().as_bytes(), name) {
            assert(table@[i as int].1.wf());
            return Some(&table[i].1);
        }
        i += 1;
    }
    None
}

/// Routes by the `Host` header: each host has its archive.
pub struct HostRouter(pub Vec<(String, WajServer)>);

impl HostRouter {
    /// A router over the archives of `map`, each listed under its host.
    pub fn new(map: Vec<(String, WajServer)>) -> (router: Self)
        ensures
            router.0 == map,
    {
        HostRouter(map)
    }
}

/// Finds the host that a request names.
pub fn get_host_from_headers(request: &Request) -> (host: Option<&String>)
    ensures
        host is Some <==> header_value(request@.headers, "host"@) is Some,
        host matches Some(v) ==> header_value(request@.headers, "host"@) == Some(v@),
{
    find_header(&request.headers, "host")
}

impl Router for HostRouter {
    open spec fn wf(&self) -> bool {
        table_wf(self.0@)
    }

    /// The archive of the request's host answers, under the URL of the
    /// request. A request without host, or for a host without archive, has
    /// no handler.
    open spec fn routed(&self, request: RequestView) -> Option<(WajServer, Seq<char>)> {
        match header_value(request.headers, "host"@) {
            None => None,
            Some(host) => match handler_named(self.0@, encode_utf8(host)) {
                None => None,
                Some(server) => Some((server, request.url)),
            },
        }
    }

    open spec fn hands_on_decoded(&self) -> bool {
        false
    }

    fn route(&self, request: &Request) -> (target: Option<(&WajServer, String)>) {
        let host = get_host_from_headers(request)?;
        let server = find_handler(&self.0, host.as_str().as_bytes())?;
        Some((server, request.url.clone()))
    }

    fn decodes(&self) -> (decoded: bool) {
        false
    }
}

/// Routes by the first segment of the path: each has its archive.
pub struct SubPathRouter(pub Vec<(String, WajServer)>);

impl SubPathRouter {
    /// A router over the archives of `map`, each listed under its segment.
    pub fn new(map: Vec<(String, WajServer)>) -> (router: Self)
        ensures
            router.0 == map,
    {
        SubPathRouter(map)
    }
}

/// The first segment of a path: what stands before its first `/`.
pub open spec fn first_segment(path: Seq<u8>) -> Seq<u8> {
    match first_index_of(path, 0x2f) {
        Some(i) => path.take(i),
        None => path,
    }
}

/// What follows the first segment of a path and its `/`.
pub open spec fn after_first_segment(path: Seq<u8>) -> Seq<u8> {
    match first_index_of(path, 0x2f) {
        Some(i) => path.skip(i + 1),
        None => Seq::empty(),
    }
}

impl Router for SubPathRouter {
    open spec fn wf(&self) -> bool {
        table_wf(self.0@)
    }

    /// The URL is decoded and its first byte, the leading `/`, dropped. The
    /// archive listed under the first segment of what is left answers, for
    /// the rest, which is handed on decoded. A URL that does not decode to
    /// text, an empty one and a segment without archive have no handler.
    open spec fn routed(&self, request: RequestView) -> Option<(WajServer, Seq<char>)> {
        let decoded = percent_decoded(encode_utf8(request.url));
        if !valid_utf8(decoded) || decoded.len() == 0 {
            None
        } else {
            let path = decoded.drop_first();
            match handler_named(self.0@, first_segment(path)) {
                None => None,
                Some(server) => if valid_utf8(after_first_segment(path)) {
                    Some((server, vstd::utf8::decode_utf8(after_first_segment(path))))
                } else {
                    None
                },
            }
        }
    }

    fn route(&self, request: &Request) -> (target: Option<(&WajServer, String)>) {
        let decoded = decode_url(request.url.as_str())?;
        if decoded.len() == 0 {
            return None;
        }
        let path = vstd::slice::slice_subrange(decoded.as_slice(), 1, decoded.len());
        assert(path@ =~= decoded@.drop_first());
        let (first, rest) = match find_byte(path, 0x2f) {
            Some(i) => (
                vstd::slice::slice_subrange(path, 0, i),
                vstd::slice::slice_subrange(path, i + 1, path.len()),
            ),
            None => (path, vstd::slice::slice_subrange(path, 0, 0)),
        };
        assert(first@ =~= first_segment(path@));
        assert(rest@ =~= after_first_segment(path@));
        let server = find_handler(&self.0, first)?;
        let url = text_of(crate::text::copy_bytes(rest))?;
        proof {
            vstd::utf8::encode_utf8_decode_utf8(url@);
        }
        Some((server, url))
    }

    open spec fn hands_on_decoded(&self) -> bool {
        true
    }

    fn decodes(&self) -> (decoded: bool) {
        true
    }
}

/// What becomes of a request once a handler was picked for it.
pub enum Routed<'a> {
    /// No archive answers: the response says so.
    Rejected(Response),
    /// The picked handler took the request as far as its index allows.
    Accepted { server: &'a WajServer, step: Step },
}

/// The front of the service: a router and the handlers behind it.
pub struct Server<R: Router> {
    pub router: R,
}

impl<R: Router> Server<R> {
    pub fn new(router: R) -> (server: Self)
        ensures
            server.router == router,
    {
        Server { router }
    }

    /// Routes a request and takes it as far as the index of the picked
    /// archive allows. A request that no archive answers is rejected by
    /// 400. What a router has decoded is not decoded again.
    pub fn begin(&self, request: &Request) -> (routed: Routed<'_>)
        requires
            self.router.wf(),
        ensures
            match begun(&self.router, request@) {
                None => routed matches Routed::Rejected(response) && response@ == empty_response(
                    400,
                ),
                Some((picked, reached)) => routed matches Routed::Accepted { server, step }
                    && *server == picked && server.wf() && step@ == reached,
            },
    {
        match self.router.route(request) {
            None => Routed::Rejected(Response::empty(400)),
            Some((server, url)) => {
                let step = if self.router.decodes() {
                    let mut path: Vec<u8> = Vec::new();
                    path.push(0x2f);
                    append_bytes(&mut path, url.as_str().as_bytes());
                    assert(path@ =~= in_archive(url@));
                    server.handle_decoded(request, path.as_slice())
                } else {
                    server.handle(request, url.as_str())
                };
                Routed::Accepted { server, step }
            },
        }
    }
}

} // verus!
