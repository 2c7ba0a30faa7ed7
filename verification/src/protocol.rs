//! The `tauri` protocol: requests of a web view are answered from the bundled
//! assets, or passed on to the development server when there are none.
use vstd::prelude::*;
use vstd::string::*;
use vstd::utf8::{encode_utf8, is_ascii_chars_encode_utf8};
use crate::builder::{
    appended, appended_all, crowded, joined, lemma_crowded, lemma_crowded_grows, names_of,
    pairs_view, Forwarding, HeaderError, ResponseBuilder,
};
use crate::content_range::{covers_whole_resource, is_whole_resource};
use crate::fields::{
    ascii_text, canonical, copy_header_map, first_value, header_fields, is_name, is_value,
    is_visible, no_fields, parse_value, text_of_value, values, with_value, Fields, NAME_ROOM,
};
use crate::percent::{decoded_text, percent_decode_text};
use crate::response::{CachedResponse, Response, ResponseCache, ResponseView};
use crate::text::{
    after_prefix, before_first_of, decimal, digits, first_of, lemma_digits, same_text,
    starts_with, strip_prefix, trim_end, trim_end_matches, trim_start, trim_start_matches,
};
use crate::uri::{parse_uri, parsed_uri, parts_view, UriParts};

verus! {

/// Status of a response that is given in full.
pub const OK: u16 = 200;

/// Status of a response that holds a range of the resource.
pub const PARTIAL_CONTENT: u16 = 206;

/// Status of a response that only says that nothing has changed.
pub const NOT_MODIFIED: u16 = 304;

/// Status of a response to a request that could not be answered.
pub const INTERNAL_SERVER_ERROR: u16 = 500;

/// A request of the web view.
#[derive(Debug)]
pub struct Request {
    method: String,
    uri: UriParts,
    headers: http::HeaderMap,
    body: Vec<u8>,
}

/// What a request says.
#[verifier::ext_equal]
pub struct RequestView {
    pub method: Seq<char>,
    /// The URI as it is written, its path and its scheme.
    pub uri: (Seq<char>, Seq<char>, Option<Seq<char>>),
    pub headers: Fields,
    pub body: Seq<u8>,
}

impl View for Request {
    type V = RequestView;

    closed spec fn view(&self) -> RequestView {
        RequestView {
            method: self.method@,
            uri: parts_view(self.uri),
            headers: header_fields(self.headers),
            body: self.body@,
        }
    }
}

impl Request {
    /// A request for the URI in `uri`, if that is one.
    pub fn new(method: String, uri: &str, headers: http::HeaderMap, body: Vec<u8>) -> (request:
        Option<Request>)
        ensures
            request is Some <==> parsed_uri(uri@) is Some,
            request matches Some(request) ==> request@ == (RequestView {
                method: method@,
                uri: parsed_uri(uri@)->0,
                headers: header_fields(headers),
                body: body@,
            }),
    {
        match parse_uri(uri) {
            Some(uri) => Some(Request::from_parts(method, uri, headers, body)),
            None => None,
        }
    }

    /// A request for a URI that has been read before.
    pub fn from_parts(
        method: String,
        uri: UriParts,
        headers: http::HeaderMap,
        body: Vec<u8>,
    ) -> (request: Request)
        ensures
            request@ == (RequestView {
                method: method@,
                uri: parts_view(uri),
                headers: header_fields(headers),
                body: body@,
            }),
    {
        Request { method, uri, headers, body }
    }

    /// The path of the URI.
    pub fn path(&self) -> (path: &str)
        ensures
            path@ == self@.uri.1,
    {
        self.uri.path.as_str()
    }

    /// The body that the request still has.
    pub fn into_body(self) -> (body: Vec<u8>)
        ensures
            body@ == self@.body,
    {
        self.body
    }
}

/// What is asked of the development server.
#[derive(Debug)]
pub struct UpstreamRequest {
    pub method: String,
    pub url: String,
    pub headers: http::HeaderMap,
    pub body: Vec<u8>,
    /// Whether the certificate of a development root is to be trusted.
    pub secure: bool,
    /// Whether the body of the reply may be decompressed on the way. It never
    /// is, so that it stays consistent with the encoding that the reply states.
    pub decompress: bool,
}

/// What the development server answered.
#[derive(Debug)]
pub struct UpstreamReply {
    pub status: u16,
    pub headers: http::HeaderMap,
    pub body: Vec<u8>,
}

impl View for UpstreamReply {
    type V = ResponseView;

    open spec fn view(&self) -> ResponseView {
        ResponseView { status: self.status, headers: header_fields(self.headers), body: self.body@ }
    }
}

/// Which asset is asked for.
#[derive(Debug)]
pub struct AssetRequest {
    pub path: String,
    /// Whether the page came by the `https` scheme.
    pub https: bool,
}

/// A bundled asset.
#[derive(Debug)]
pub struct Asset {
    pub mime_type: String,
    pub csp_header: Option<String>,
    pub bytes: Vec<u8>,
}

/// A request that waits for the development server.
pub struct PendingProxy {
    url: String,
    builder: ResponseBuilder,
}

/// A request that waits for an asset.
pub struct PendingAsset {
    builder: ResponseBuilder,
}

/// How a request is to be answered.
pub enum Exchange {
    /// By the development server.
    Proxy(UpstreamRequest, PendingProxy),
    /// By a bundled asset.
    Asset(AssetRequest, PendingAsset),
}

/// A response to a request, and whether it is final.
#[derive(Debug)]
pub struct Answer {
    pub response: Response,
    /// Whether the application may still change the response.
    pub open_to_handler: bool,
}

/// Whose turn it is once a response is there.
#[derive(Debug)]
pub enum Turn {
    /// The handler of the application may change the response. What it leaves
    /// is the answer to the request.
    Handler(Response),
    /// The response is the answer to the request.
    Respond(Response),
}

/// Whose turn it is after an answer.
pub open spec fn turn_of(answer: Answer, has_handler: bool) -> Turn {
    if has_handler && answer.open_to_handler {
        Turn::Handler(answer.response)
    } else {
        Turn::Respond(answer.response)
    }
}

impl Answer {
    /// Goes on with the response, given whether the application has a handler
    /// for responses.
    pub fn turn(self, has_handler: bool) -> (turn: Turn)
        ensures
            turn == turn_of(self, has_handler),
    {
        if has_handler && self.open_to_handler {
            Turn::Handler(self.response)
        } else {
            Turn::Respond(self.response)
        }
    }
}

/// The answering side of the protocol for one window.
#[derive(Debug)]
pub struct ProtocolHandler {
    url: String,
    window_origin: String,
}

/// Whether the application is asked for its `https` URL: when the window's
/// origin begins with `https`.
pub fn wants_https_url(window_origin: &str) -> (https: bool)
    ensures
        https == "https"@.is_prefix_of(window_origin@),
{
    starts_with(window_origin, "https")
}

/// `url` without the slash at its end, if it has one.
pub open spec fn without_last_slash(url: Seq<char>) -> Seq<char> {
    if url.len() > 0 && url.last() == '/' {
        url.drop_last()
    } else {
        url
    }
}

/// The protocol handler of a window, given the URL of the application, and
/// the cache of its responses. Every handler has a cache of its own, which is
/// empty in the beginning.
pub fn get(app_url: &str, window_origin: &str) -> (made: (ProtocolHandler, ResponseCache))
    ensures
        made.0.url() == without_last_slash(app_url@),
        made.0.origin() == window_origin@,
        made.1.wf(),
        made.1@ == Map::<Seq<char>, ResponseView>::empty(),
{
    let n = app_url.unicode_len();
    let url = if n > 0 && app_url.get_char(n - 1) == '/' {
        proof {
            assert(app_url@.drop_last() =~= app_url@.subrange(0, n - 1));
        }
        app_url.substring_char(0, n - 1).to_owned()
    } else {
        app_url.to_owned()
    };
    let handler = ProtocolHandler { url, window_origin: window_origin.to_owned() };
    (handler, ResponseCache::new())
}

impl ProtocolHandler {
    /// The URL of the application.
    pub closed spec fn url(&self) -> Seq<char> {
        self.url@
    }

    /// The origin of the window.
    pub closed spec fn origin(&self) -> Seq<char> {
        self.window_origin@
    }

    /// Begins to answer a request: builds the fields that every response has,
    /// and says what is to be fetched. The development server answers when it
    /// is in use and no asset is bundled; it is handed the body.
    pub fn get_response(
        &self,
        request: &mut Request,
        dev_server: bool,
        has_assets: bool,
        configured: &Vec<(String, String)>,
    ) -> (exchange: Exchange)
        ensures
            match exchange {
                Exchange::Proxy(upstream, pending) => {
                    &&& dev_server && !has_assets
                    &&& upstream.method@ == old(request)@.method
                    &&& upstream.url@ == upstream_url(
                        self.url(),
                        requested_path(old(request)@.uri.0, self.origin(), true),
                    )
                    &&& header_fields(upstream.headers) == old(request)@.headers
                    &&& upstream.body@ == old(request)@.body
                    &&& upstream.secure == "https://"@.is_prefix_of(upstream.url@)
                    &&& !upstream.decompress
                    &&& pending.url() == upstream.url@
                    &&& begun(pending.fields(), pairs_view(configured@), self.origin())
                    &&& final(request)@ == (RequestView { body: Seq::empty(), ..old(request)@ })
                },
                Exchange::Asset(asset, pending) => {
                    &&& !dev_server || has_assets
                    &&& asset.path@ == requested_path(old(request)@.uri.0, self.origin(), false)
                    &&& asset.https == (old(request)@.uri.2 == Some("https"@))
                    &&& begun(pending.fields(), pairs_view(configured@), self.origin())
                    &&& final(request)@ == old(request)@
                },
            },
    {
        let proxied = dev_server && !has_assets;
        // The whole URI is passed on; an asset is found without query and
        // fragment.
        let whole = if proxied {
            request.uri.text.clone()
        } else {
            before_first_of(request.uri.text.as_str(), "?#")
        };
        let path = match strip_prefix(whole.as_str(), self.window_origin.as_str()) {
            Some(path) => path,
            None => match strip_prefix(whole.as_str(), "tauri://localhost") {
                Some(path) => path,
                None => String::new(),
            },
        };
        let configured_builder = ResponseBuilder::new().header_all(configured);
        let ghost configured_fields = configured_builder.fields();
        let builder = configured_builder.header(
            "Access-Control-Allow-Origin",
            self.window_origin.as_str().as_bytes(),
        );
        proof {
            let names = names_of(pairs_view(configured@));
            let all = names.insert(canonical("Access-Control-Allow-Origin"@));
            assert(no_fields().dom().union(names) =~= names);
            if crowded(names) {
                lemma_crowded_grows(names, all);
            }
            if configured_fields is Ok && configured_fields->Ok_0.dom().len() >= NAME_ROOM {
                lemma_crowded(configured_fields->Ok_0.dom(), all);
            }
            assert(begun(builder.fields(), pairs_view(configured@), self.origin()));
        }
        if proxied {
            let decoded = percent_decode_text(path.as_str());
            let mut url = trim_end_matches(self.url.as_str(), '/');
            url.append("/");
            url.append(trim_start_matches(decoded.as_str(), '/').as_str());
            let secure = starts_with(url.as_str(), "https://");
            let mut body: Vec<u8> = Vec::new();
            std::mem::swap(&mut body, &mut request.body);
            let upstream = UpstreamRequest {
                method: request.method.clone(),
                url: url.clone(),
                headers: copy_header_map(&request.headers),
                body,
                secure,
                decompress: false,
            };
            Exchange::Proxy(upstream, PendingProxy { url, builder })
        } else {
            let https = match &request.uri.scheme {
                Some(scheme) => same_text(scheme.as_str(), "https"),
                None => false,
            };
            Exchange::Asset(AssetRequest { path, https }, PendingAsset { builder })
        }
    }
}

/// The response to a request that could not be answered.
pub open spec fn error_view(origin: Seq<char>, message: Seq<char>) -> ResponseView {
    ResponseView {
        status: INTERNAL_SERVER_ERROR,
        headers: with_value(
            with_value(no_fields(), "content-type"@, encode_utf8("text/plain"@)),
            "access-control-allow-origin"@,
            encode_utf8(origin),
        ),
        body: encode_utf8(message),
    }
}

impl ProtocolHandler {
    /// Whether the window's origin can be sent as the value of a field.
    pub fn origin_is_sendable(&self) -> (sendable: bool)
        ensures
            sendable == is_value(encode_utf8(self.origin())),
    {
        parse_value(self.window_origin.as_str().as_bytes()).is_some()
    }

    /// The response to a request that could not be answered: the message, as
    /// plain text.
    pub fn error_response(&self, message: &str) -> (response: Response)
        requires
            is_value(encode_utf8(self.origin())),
        ensures
            response@ == error_view(self.origin(), message@),
    {
        proof {
            lemma_names();
            reveal_strlit("text/plain");
            lemma_ascii_value("text/plain"@);
        }
        let kind = text_plain();
        let typed = ResponseBuilder::new().header("content-type", kind.as_str().as_bytes());
        let builder = typed.header(
            "Access-Control-Allow-Origin",
            self.window_origin.as_str().as_bytes(),
        );
        let headers = builder.finish().unwrap();
        Response {
            status: INTERNAL_SERVER_ERROR,
            headers,
            body: vstd::slice::slice_to_vec(message.as_bytes()),
        }
    }

    /// What the web view gets: the response, or the message of the failure.
    pub fn respond(&self, result: Result<Response, String>) -> (response: Response)
        requires
            result is Err ==> is_value(encode_utf8(self.origin())),
        ensures
            response@ == match result {
                Ok(response) => response@,
                Err(message) => error_view(self.origin(), message@),
            },
    {
        match result {
            Ok(response) => response,
            Err(message) => self.error_response(message.as_str()),
        }
    }
}

/// The part of a request's URI that says what is asked for: what follows the
/// window's origin, or the origin that is used for every window. What
/// reaches the development server keeps query and fragment.
pub open spec fn requested_path(
    uri: Seq<char>,
    origin: Seq<char>,
    proxied: bool,
) -> Seq<char> {
    let whole = if proxied {
        uri
    } else {
        uri.take(first_of(uri, "?#"@))
    };
    match after_prefix(whole, origin) {
        Some(path) => path,
        None => match after_prefix(whole, "tauri://localhost"@) {
            Some(path) => path,
            None => Seq::empty(),
        },
    }
}

/// The URL of a path on the development server: one slash between the two.
pub open spec fn upstream_url(base: Seq<char>, path: Seq<char>) -> Seq<char> {
    trim_end(base, '/') + "/"@ + trim_start(decoded_text(path), '/')
}

/// The fields that every response has: those of the configuration, and the
/// window's origin as the one that may read the response.
pub open spec fn common_fields(
    configured: Seq<(Seq<char>, Seq<char>)>,
    origin: Seq<char>,
) -> Result<Fields, HeaderError> {
    appended(
        appended_all(Ok(no_fields()), configured),
        "Access-Control-Allow-Origin"@,
        encode_utf8(origin),
    )
}

/// A response with its common fields, unless these are too many.
pub open spec fn begun(
    fields: Result<Fields, HeaderError>,
    configured: Seq<(Seq<char>, Seq<char>)>,
    origin: Seq<char>,
) -> bool {
    ||| fields == common_fields(configured, origin)
    ||| fields == Err::<Fields, _>(HeaderError::MaxSizeReached) && crowded(
        names_of(configured).insert(canonical("Access-Control-Allow-Origin"@)),
    )
}

impl PendingProxy {
    /// The URL that the development server was asked for.
    pub closed spec fn url(&self) -> Seq<char> {
        self.url@
    }

    /// The fields of the response so far.
    pub closed spec fn fields(&self) -> Result<Fields, HeaderError> {
        self.builder.fields()
    }

    /// Takes what the development server answered. A whole response is kept;
    /// one that says that nothing has changed is answered with what was kept.
    pub fn received(self, cache: &mut ResponseCache, reply: UpstreamReply) -> (result: Result<
        Answer,
        HeaderError,
    >)
        requires
            old(cache).wf(),
        ensures
            final(cache).wf(),
            final(cache)@ == cache_after(old(cache)@, self.url(), reply@),
            match result {
                Ok(answer) => {
                    &&& answer_to(self.fields(), old(cache)@, self.url(), reply@) == Ok::<
                        _,
                        HeaderError,
                    >(answer.response@)
                    &&& answer.open_to_handler == !replays(old(cache)@, self.url(), reply@)
                },
                Err(fault) => {
                    ||| answer_to(self.fields(), old(cache)@, self.url(), reply@) == Err::<
                        ResponseView,
                        _,
                    >(fault)
                    ||| fault == HeaderError::MaxSizeReached && self.fields() is Ok && crowded(
                        answer_names(
                            self.fields()->Ok_0,
                            old(cache)@,
                            self.url(),
                            reply@,
                        ),
                    )
                },
            },
    {
        if reply.status == NOT_MODIFIED {
            if let Some(kept) = cache.get(self.url.as_str()) {
                let status = kept.status;
                let body = copy_bytes(&kept.body);
                let builder = self.builder.forward(&kept.headers, Forwarding::Everything);
                return match builder.finish() {
                    Ok(headers) => Ok(
                        Answer {
                            response: Response { status, headers, body },
                            open_to_handler: false,
                        },
                    ),
                    Err(fault) => Err(fault),
                };
            }
        } else if reply.status == OK {
            cache.insert(
                self.url.clone(),
                CachedResponse {
                    status: reply.status,
                    headers: copy_header_map(&reply.headers),
                    body: copy_bytes(&reply.body),
                },
            );
        }
        let rule = forwarding_for(&reply);
        let status = if rule == Forwarding::WholeRange {
            OK
        } else {
            reply.status
        };
        let ghost common = self.fields();
        let forwarded = self.builder.forward(&reply.headers, rule);
        let ghost passed = forwarded.fields();
        let builder = with_own_fields(forwarded, rule, &reply);
        proof {
            if common is Ok {
                let all = answer_names(common->Ok_0, old(cache)@, self.url@, reply@);
                let some = common->Ok_0.dom().union(reply@.headers.dom());
                if crowded(some) {
                    lemma_crowded_grows(some, all);
                }
                if passed is Ok {
                    let needed = passed->Ok_0.dom().insert("content-length"@).insert(
                        "cache-control"@,
                    ).insert("pragma"@);
                    if crowded(needed) {
                        lemma_crowded_grows(needed, all);
                    }
                }
            }
        }
        match builder.finish() {
            Ok(headers) => Ok(
                Answer {
                    response: Response { status, headers, body: reply.body },
                    open_to_handler: true,
                },
            ),
            Err(fault) => Err(fault),
        }
    }

    /// The message for a request that did not get through: `error` says what
    /// happened, `status` is the status code that came with it, and `ios`
    /// whether this runs on iOS.
    pub fn failed(self, error: &str, status: Option<u16>, ios: bool) -> (message: String)
        ensures
            message@ == failure_message(self.url(), error@, status, ios),
    {
        let mut message = "Failed to request ".to_owned();
        message.append(self.url.as_str());
        message.append(": ");
        message.append(error);
        match status {
            Some(code) => {
                message.append("status code: ");
                message.append(decimal(code as u64).as_str());
            },
            None => {
                if ios {
                    message.append(
                        ", did you grant local network permissions? That is required to reach the development server. Please grant the permission via the prompt or in `Settings > Privacy & Security > Local Network` and restart the app. See https://support.apple.com/en-us/102229 for more information.",
                    );
                }
            },
        }
        message
    }
}

/// What is said of a request that did not get through.
pub open spec fn failure_message(
    url: Seq<char>,
    error: Seq<char>,
    status: Option<u16>,
    ios: bool,
) -> Seq<char> {
    let hint = match status {
        Some(code) => "status code: "@ + digits(code as nat),
        None => if ios {
            ", did you grant local network permissions? That is required to reach the development server. Please grant the permission via the prompt or in `Settings > Privacy & Security > Local Network` and restart the app. See https://support.apple.com/en-us/102229 for more information."@
        } else {
            Seq::empty()
        },
    };
    "Failed to request "@ + url + ": "@ + error + hint
}

/// Whether an answer is given from the cache: the development server says
/// that nothing has changed, and there is a response to fall back on.
pub open spec fn replays(
    cache: Map<Seq<char>, ResponseView>,
    url: Seq<char>,
    reply: ResponseView,
) -> bool {
    reply.status == NOT_MODIFIED && cache.dom().contains(url)
}

/// What the cache holds after an answer: only a response with status 200 is
/// kept, never a part of a resource.
pub open spec fn cache_after(
    cache: Map<Seq<char>, ResponseView>,
    url: Seq<char>,
    reply: ResponseView,
) -> Map<Seq<char>, ResponseView> {
    if reply.status == OK {
        cache.insert(url, reply)
    } else {
        cache
    }
}

/// Whether the answer's `Content-Range` says that it is the whole resource.
pub open spec fn has_whole_range(headers: Fields) -> bool {
    let ranges = values(headers, "content-range"@);
    ranges.len() > 0 && is_visible(ranges[0]) && is_whole_resource(ascii_text(ranges[0]))
}

/// Which fields of an answer are passed on.
pub open spec fn forwarding_of(reply: ResponseView) -> Forwarding {
    if reply.status != PARTIAL_CONTENT {
        Forwarding::Plain
    } else if has_whole_range(reply.headers) {
        Forwarding::WholeRange
    } else {
        Forwarding::Part
    }
}

/// The fields that are set on an answer beside those that are passed on: the
/// length of its body, and how it may be cached if it was one range.
pub open spec fn with_own(fields: Fields, rule: Forwarding, length: nat) -> Fields {
    let sized = with_value(fields, "content-length"@, encode_utf8(digits(length)));
    match rule {
        Forwarding::WholeRange => with_value(
            sized,
            "cache-control"@,
            encode_utf8("public, max-age=31536000, immutable"@),
        ),
        Forwarding::Part => with_value(
            with_value(
                sized,
                "cache-control"@,
                encode_utf8("no-store, no-cache, must-revalidate"@),
            ),
            "pragma"@,
            encode_utf8("no-cache"@),
        ),
        _ => sized,
    }
}

/// The response to a request, given its common fields, what is kept, and what
/// the development server answered.
pub open spec fn answer_to(
    fields: Result<Fields, HeaderError>,
    cache: Map<Seq<char>, ResponseView>,
    url: Seq<char>,
    reply: ResponseView,
) -> Result<ResponseView, HeaderError> {
    match fields {
        Err(fault) => Err(fault),
        Ok(common) => Ok(
            if replays(cache, url, reply) {
                ResponseView {
                    headers: joined(common, cache[url].headers, Forwarding::Everything),
                    ..cache[url]
                }
            } else {
                let rule = forwarding_of(reply);
                ResponseView {
                    status: if rule == Forwarding::WholeRange {
                        OK
                    } else {
                        reply.status
                    },
                    headers: with_own(
                        joined(common, reply.headers, rule),
                        rule,
                        reply.body.len(),
                    ),
                    body: reply.body,
                }
            },
        ),
    }
}

/// The field names that an answer may need.
pub open spec fn answer_names(
    common: Fields,
    cache: Map<Seq<char>, ResponseView>,
    url: Seq<char>,
    reply: ResponseView,
) -> Set<Seq<char>> {
    if replays(cache, url, reply) {
        common.dom().union(cache[url].headers.dom())
    } else {
        common.dom().union(reply.headers.dom()).insert("content-length"@).insert(
            "cache-control"@,
        ).insert("pragma"@)
    }
}

fn copy_bytes(bytes: &Vec<u8>) -> (copy: Vec<u8>)
    ensures
        copy@ == bytes@,
{
    vstd::slice::slice_to_vec(bytes.as_slice())
}

fn forwarding_for(reply: &UpstreamReply) -> (rule: Forwarding)
    ensures
        rule == forwarding_of(reply@),
{
    if reply.status != PARTIAL_CONTENT {
        return Forwarding::Plain;
    }
    proof {
        lemma_names();
    }
    let whole = match first_value(&reply.headers, "content-range") {
        Some(value) => match text_of_value(value) {
            Some(text) => covers_whole_resource(text),
            None => false,
        },
        None => false,
    };
    if whole {
        Forwarding::WholeRange
    } else {
        Forwarding::Part
    }
}

/// The values that are set here are values.
proof fn lemma_own_values(length: nat)
    ensures
        is_value(encode_utf8(digits(length))),
        is_value(encode_utf8("public, max-age=31536000, immutable"@)),
        is_value(encode_utf8("no-store, no-cache, must-revalidate"@)),
        is_value(encode_utf8("no-cache"@)),
{
    reveal_strlit("public, max-age=31536000, immutable");
    reveal_strlit("no-store, no-cache, must-revalidate");
    reveal_strlit("no-cache");
    lemma_digits(length);
    lemma_ascii_value(digits(length));
    lemma_ascii_value("public, max-age=31536000, immutable"@);
    lemma_ascii_value("no-store, no-cache, must-revalidate"@);
    lemma_ascii_value("no-cache"@);
}

proof fn lemma_ascii_value(text: Seq<char>)
    requires
        forall|i: int| 0 <= i < text.len() ==> 32 <= #[trigger] text[i] as int && (text[i] as int)
            < 127,
    ensures
        is_value(encode_utf8(text)),
{
    is_ascii_chars_encode_utf8(text);
    let bytes = encode_utf8(text);
    assert forall|i: int| 0 <= i < bytes.len() implies (#[trigger] bytes[i] >= 32 && bytes[i]
        != 127) || bytes[i] == 9 by {
        assert(bytes[i] == text[i] as u8);
    }
}

fn with_own_fields(builder: ResponseBuilder, rule: Forwarding, reply: &UpstreamReply) -> (next:
    ResponseBuilder)
    ensures
        match builder.fields() {
            Err(fault) => next.fields() == Err::<Fields, _>(fault),
            Ok(fields) => next.fields() == Ok::<_, HeaderError>(
                with_own(fields, rule, reply.body@.len()),
            ) || (next.fields() == Err::<Fields, _>(HeaderError::MaxSizeReached) && crowded(
                fields.dom().insert("content-length"@).insert("cache-control"@).insert(
                    "pragma"@,
                ),
            )),
        },
{
    proof {
        lemma_names();
        lemma_own_values(reply.body@.len());
    }
    let ghost start = builder.fields();
    let ghost all = start->Ok_0.dom().insert("content-length"@).insert("cache-control"@).insert(
        "pragma"@,
    );
    let length = decimal(reply.body.len() as u64);
    let sized = builder.header("content-length", length.as_str().as_bytes());
    proof {
        if start is Ok && start->Ok_0.dom().len() >= NAME_ROOM {
            lemma_crowded(start->Ok_0.dom(), all);
        }
    }
    let ghost second = sized.fields();
    proof {
        if second is Ok && second->Ok_0.dom().len() >= NAME_ROOM {
            lemma_crowded(second->Ok_0.dom(), all);
        }
    }
    match rule {
        Forwarding::WholeRange => sized.header(
            "cache-control",
            "public, max-age=31536000, immutable".as_bytes(),
        ),
        Forwarding::Part => {
            let uncached = sized.header(
                "cache-control",
                "no-store, no-cache, must-revalidate".as_bytes(),
            );
            let ghost third = uncached.fields();
            proof {
                if third is Ok && third->Ok_0.dom().len() >= NAME_ROOM {
                    lemma_crowded(third->Ok_0.dom(), all);
                }
            }
            uncached.header("pragma", "no-cache".as_bytes())
        },
        _ => sized,
    }
}

/// `mime::TEXT_PLAIN.essence_str()`: the name of plain text.
#[verifier::external_body]
fn text_plain() -> (name: String)
    ensures
        name@ == "text/plain"@,
{
    mime::TEXT_PLAIN.essence_str().to_string()
}

impl PendingAsset {
    /// The fields of the response so far.
    pub closed spec fn fields(&self) -> Result<Fields, HeaderError> {
        self.builder.fields()
    }

    /// Answers with the asset.
    pub fn found(self, asset: Asset) -> (result: Result<Response, HeaderError>)
        ensures
            match result {
                Ok(response) => asset_fields(self.fields(), asset) == Ok::<_, HeaderError>(
                    response@.headers,
                ) && response@.status == 200 && response@.body == asset.bytes@,
                Err(fault) => asset_fields(self.fields(), asset) == Err::<Fields, _>(fault) || (
                fault == HeaderError::MaxSizeReached && self.fields() is Ok && crowded(
                    self.fields()->Ok_0.dom().insert("content-type"@).insert(
                        "content-security-policy"@,
                    ),
                )),
            },
    {
        let ghost start = self.fields();
        let typed = self.builder.header("content-type", asset.mime_type.as_str().as_bytes());
        let ghost middle = typed.fields();
        let builder = match &asset.csp_header {
            Some(csp) => typed.header("Content-Security-Policy", csp.as_str().as_bytes()),
            None => typed,
        };
        proof {
            lemma_names();
            if start is Ok {
                let all = start->Ok_0.dom().insert("content-type"@).insert(
                    "content-security-policy"@,
                );
                if start->Ok_0.dom().len() >= NAME_ROOM {
                    lemma_crowded(start->Ok_0.dom(), all);
                }
                if middle is Ok && middle->Ok_0.dom().len() >= NAME_ROOM {
                    lemma_crowded(middle->Ok_0.dom(), all);
                }
            }
        }
        match builder.finish() {
            Ok(headers) => Ok(Response { status: OK, headers, body: asset.bytes }),
            Err(fault) => Err(fault),
        }
    }

    /// Answers with the asset; the application may always change the response.
    pub fn answered(self, asset: Asset) -> (result: Result<Answer, HeaderError>)
        ensures
            match result {
                Ok(answer) => asset_fields(self.fields(), asset) == Ok::<_, HeaderError>(
                    answer.response@.headers,
                ) && answer.response@.status == 200 && answer.response@.body == asset.bytes@
                    && answer.open_to_handler,
                Err(fault) => asset_fields(self.fields(), asset) == Err::<Fields, _>(fault) || (
                fault == HeaderError::MaxSizeReached && self.fields() is Ok && crowded(
                    self.fields()->Ok_0.dom().insert("content-type"@).insert(
                        "content-security-policy"@,
                    ),
                )),
            },
    {
        match self.found(asset) {
            Ok(response) => Ok(Answer { response, open_to_handler: true }),
            Err(fault) => Err(fault),
        }
    }
}

/// The fields of a response that holds an asset: its type, and its content
/// security policy if it has one.
pub open spec fn asset_fields(
    fields: Result<Fields, HeaderError>,
    asset: Asset,
) -> Result<Fields, HeaderError> {
    let typed = appended(fields, "content-type"@, encode_utf8(asset.mime_type@));
    match asset.csp_header {
        Some(csp) => appended(typed, "Content-Security-Policy"@, encode_utf8(csp@)),
        None => typed,
    }
}

/// The field names that are used here are names, and in lower case.
pub proof fn lemma_names()
    ensures
        is_name("content-type"@) && canonical("content-type"@) == "content-type"@,
        is_name("content-length"@) && canonical("content-length"@) == "content-length"@,
        is_name("content-range"@) && canonical("content-range"@) == "content-range"@,
        is_name("cache-control"@) && canonical("cache-control"@) == "cache-control"@,
        is_name("pragma"@) && canonical("pragma"@) == "pragma"@,
        is_name("Content-Security-Policy"@) && canonical("Content-Security-Policy"@)
            == "content-security-policy"@,
        is_name("Access-Control-Allow-Origin"@) && canonical("Access-Control-Allow-Origin"@)
            == "access-control-allow-origin"@,
{
    reveal_strlit("content-type");
    reveal_strlit("content-length");
    reveal_strlit("content-range");
    reveal_strlit("cache-control");
    reveal_strlit("pragma");
    reveal_strlit("Content-Security-Policy");
    reveal_strlit("content-security-policy");
    reveal_strlit("Access-Control-Allow-Origin");
    reveal_strlit("access-control-allow-origin");
    assert(canonical("content-type"@) =~= "content-type"@);
    assert(canonical("content-length"@) =~= "content-length"@);
    assert(canonical("content-range"@) =~= "content-range"@);
    assert(canonical("cache-control"@) =~= "cache-control"@);
    assert(canonical("pragma"@) =~= "pragma"@);
    assert(canonical("Content-Security-Policy"@) =~= "content-security-policy"@);
    assert(canonical("Access-Control-Allow-Origin"@) =~= "access-control-allow-origin"@);
}

} // verus!
