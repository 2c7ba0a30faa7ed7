use http::header::{HeaderMap, HeaderName, HeaderValue};
use tauri_webview::builder::{Forwarding, HeaderError, ResponseBuilder};
use tauri_webview::protocol::{
    get, wants_https_url, Answer, Asset, AssetRequest, Exchange, PendingAsset, PendingProxy,
    ProtocolHandler, Request, Turn, UpstreamReply, UpstreamRequest,
};
use tauri_webview::response::{CachedResponse, Response, ResponseCache};
use tauri_webview::uri::UriParts;

const ORIGIN: &str = "http://tauri.localhost";

fn header_map(fields: &[(&str, &str)]) -> HeaderMap {
    let mut map = HeaderMap::new();
    for (name, value) in fields {
        map.append(
            HeaderName::from_bytes(name.as_bytes()).unwrap(),
            HeaderValue::from_bytes(value.as_bytes()).unwrap(),
        );
    }
    map
}

fn values(map: &HeaderMap, name: &str) -> Vec<String> {
    map.get_all(name)
        .iter()
        .map(|value| String::from_utf8(value.as_bytes().to_vec()).unwrap())
        .collect()
}

fn request(uri: &str) -> Request {
    Request::new("GET".to_string(), uri, HeaderMap::new(), vec![]).unwrap()
}

fn handler() -> ProtocolHandler {
    get("http://localhost:1420/", ORIGIN).0
}

fn configured(fields: &[(&str, &str)]) -> Vec<(String, String)> {
    fields.iter().map(|(name, value)| (name.to_string(), value.to_string())).collect()
}

fn proxied(handler: &ProtocolHandler, uri: &str) -> (UpstreamRequest, PendingProxy) {
    match handler.get_response(&mut request(uri), true, false, &vec![]) {
        Exchange::Proxy(upstream, pending) => (upstream, pending),
        Exchange::Asset(..) => panic!("not proxied"),
    }
}

fn bundled(
    handler: &ProtocolHandler,
    uri: &str,
    fields: &[(&str, &str)],
) -> (AssetRequest, PendingAsset) {
    match handler.get_response(&mut request(uri), true, true, &configured(fields)) {
        Exchange::Asset(asset, pending) => (asset, pending),
        Exchange::Proxy(..) => panic!("proxied"),
    }
}

fn reply(status: u16, fields: &[(&str, &str)], body: &str) -> UpstreamReply {
    UpstreamReply { status, headers: header_map(fields), body: body.as_bytes().to_vec() }
}

fn answer(cache: &mut ResponseCache, uri: &str, reply: UpstreamReply) -> Answer {
    proxied(&handler(), uri).1.received(cache, reply).unwrap()
}

fn asset(mime_type: &str, csp: Option<&str>) -> Asset {
    Asset {
        mime_type: mime_type.to_string(),
        csp_header: csp.map(|csp| csp.to_string()),
        bytes: b"<html>".to_vec(),
    }
}

#[test]
fn the_origin_chooses_the_scheme_of_the_application() {
    assert!(wants_https_url("https://tauri.localhost"));
    assert!(!wants_https_url("http://tauri.localhost"));
    assert!(!wants_https_url("tauri://localhost"));
}

#[test]
fn the_whole_uri_is_proxied() {
    let (upstream, _) = proxied(&handler(), "http://tauri.localhost/src/main.ts?t=1");
    assert_eq!(upstream.url, "http://localhost:1420/src/main.ts?t=1");
    assert_eq!(upstream.method, "GET");
    assert!(!upstream.secure);
    assert!(!upstream.decompress);
}

#[test]
fn the_common_origin_is_known_too() {
    let (upstream, _) = proxied(&handler(), "tauri://localhost/a/b?c");
    assert_eq!(upstream.url, "http://localhost:1420/a/b?c");
    let (upstream, _) = proxied(&handler(), "http://elsewhere.example/a/b?c");
    assert_eq!(upstream.url, "http://localhost:1420/");
}

#[test]
fn escapes_are_decoded_on_the_way_to_the_server() {
    let url = |path: &str| proxied(&handler(), &format!("{ORIGIN}{path}")).0.url;
    assert_eq!(url("/a%20b"), "http://localhost:1420/a b");
    assert_eq!(url("/%C3%A4%2f"), "http://localhost:1420/\u{e4}/");
    // What is no escape stays.
    assert_eq!(url("/100%/%zz%2"), "http://localhost:1420/100%/%zz%2");
    // Bytes that are no text are replaced.
    assert_eq!(url("/%ff"), "http://localhost:1420/\u{fffd}");
}

#[test]
fn one_slash_joins_server_and_path() {
    let url = |base: &str, path: &str| {
        proxied(&get(base, ORIGIN).0, &format!("{ORIGIN}{path}")).0.url
    };
    assert_eq!(url("http://localhost:1420", "/x"), "http://localhost:1420/x");
    assert_eq!(url("http://localhost:1420/", "/x"), "http://localhost:1420/x");
    assert_eq!(url("http://localhost:1420///", "///x"), "http://localhost:1420/x");
    assert_eq!(url("http://localhost:1420/", "/%2Fx"), "http://localhost:1420/x");
    assert_eq!(url("", "/x"), "/x");
}

#[test]
fn a_secure_server_is_noticed() {
    let secure = |base: &str| proxied(&get(base, ORIGIN).0, "http://tauri.localhost/").0.secure;
    assert!(secure("https://localhost:1420"));
    assert!(!secure("http://localhost:1420"));
    assert!(!secure("https:/localhost"));
}

#[test]
fn fields_and_body_of_the_request_are_passed_on() {
    let fields = header_map(&[("Range", "bytes=0-"), ("X-Two", "1"), ("x-two", "2")]);
    let mut request =
        Request::new("POST".to_string(), "tauri://localhost/x", fields.clone(), b"data".to_vec())
            .unwrap();
    match handler().get_response(&mut request, true, false, &vec![]) {
        Exchange::Proxy(upstream, _) => {
            assert_eq!(upstream.method, "POST");
            assert_eq!(upstream.headers, fields);
            assert_eq!(upstream.body, b"data");
        }
        Exchange::Asset(..) => panic!("not proxied"),
    }
    assert!(request.into_body().is_empty());
}

#[test]
fn an_asset_request_keeps_its_body() {
    let mut request =
        Request::new("POST".to_string(), "tauri://localhost/x", HeaderMap::new(), vec![1, 2])
            .unwrap();
    let exchange = handler().get_response(&mut request, false, false, &vec![]);
    assert!(matches!(exchange, Exchange::Asset(..)));
    assert_eq!(request.path(), "/x");
    assert_eq!(request.into_body(), vec![1, 2]);
}

#[test]
fn the_server_answers_only_without_assets() {
    let is_proxied = |dev_server: bool, has_assets: bool| {
        matches!(
            handler().get_response(
                &mut request("tauri://localhost/"),
                dev_server,
                has_assets,
                &vec![]
            ),
            Exchange::Proxy(..)
        )
    };
    assert!(is_proxied(true, false));
    assert!(!is_proxied(true, true));
    assert!(!is_proxied(false, false));
    assert!(!is_proxied(false, true));
}

#[test]
fn uris_are_read() {
    assert!(Request::new("GET".to_string(), "not a uri", HeaderMap::new(), vec![]).is_none());
    assert!(Request::new("GET".to_string(), "", HeaderMap::new(), vec![]).is_none());
    assert_eq!(request("http://tauri.localhost/a/b?c=d").path(), "/a/b");
    assert_eq!(request("http://tauri.localhost").path(), "/");
    // A URI has no fragment, whatever the text says.
    let (upstream, _) = proxied(&handler(), "http://tauri.localhost/a#b");
    assert_eq!(upstream.url, "http://localhost:1420/a");
}

#[test]
fn a_request_is_made_of_parts() {
    let parts = UriParts {
        text: "http://tauri.localhost/a?b".to_string(),
        path: "/a".to_string(),
        scheme: Some("http".to_string()),
    };
    let mut request =
        Request::from_parts("PUT".to_string(), parts, header_map(&[("a", "b")]), vec![7]);
    assert_eq!(request.path(), "/a");
    match handler().get_response(&mut request, true, false, &vec![]) {
        Exchange::Proxy(upstream, _) => {
            assert_eq!(upstream.method, "PUT");
            assert_eq!(upstream.url, "http://localhost:1420/a?b");
            assert_eq!(upstream.headers, header_map(&[("a", "b")]));
            assert_eq!(upstream.body, vec![7]);
        }
        Exchange::Asset(..) => panic!("not proxied"),
    }
}

#[test]
fn query_and_fragment_do_not_choose_the_asset() {
    let path = |uri: &str| bundled(&handler(), uri, &[]).0.path;
    assert_eq!(path("http://tauri.localhost/index.html"), "/index.html");
    assert_eq!(path("http://tauri.localhost/index.html?x=1?y#z"), "/index.html");
    assert_eq!(path("http://tauri.localhost/index.html#top"), "/index.html");
    assert_eq!(path("tauri://localhost/a%20b?q"), "/a%20b");
    assert_eq!(path("http://elsewhere.example/index.html"), "");
}

#[test]
fn the_scheme_of_the_page_is_passed_on() {
    let https = |uri: &str| bundled(&get("x", "https://tauri.localhost").0, uri, &[]).0.https;
    assert!(https("https://tauri.localhost/"));
    assert!(https("HTTPS://tauri.localhost/"));
    assert!(!https("http://tauri.localhost/"));
    assert!(!https("tauri://localhost/"));
    assert!(!https("/index.html"));
}

#[test]
fn an_asset_is_answered_with_its_type_and_policy() {
    let fields = [("X-One", "1"), ("x-one", "2")];
    let (_, pending) = bundled(&handler(), "tauri://localhost/", &fields);
    let response = pending.found(asset("text/html", Some("default-src 'self'"))).unwrap();
    assert_eq!(response.status, 200);
    assert_eq!(response.body, b"<html>");
    assert_eq!(
        response.headers,
        header_map(&[
            ("x-one", "1"),
            ("x-one", "2"),
            ("access-control-allow-origin", ORIGIN),
            ("content-type", "text/html"),
            ("content-security-policy", "default-src 'self'"),
        ])
    );
}

#[test]
fn an_asset_without_policy_has_none() {
    let (_, pending) = bundled(&handler(), "tauri://localhost/", &[]);
    let response = pending.found(asset("text/css", None)).unwrap();
    assert_eq!(
        response.headers,
        header_map(&[("access-control-allow-origin", ORIGIN), ("content-type", "text/css")])
    );
}

fn fault(handler: &ProtocolHandler, fields: &[(&str, &str)], asset: Asset) -> HeaderError {
    bundled(handler, "tauri://localhost/", fields).1.found(asset).unwrap_err()
}

#[test]
fn the_first_fault_of_a_field_is_the_answer() {
    let page = || asset("text/html", None);
    assert_eq!(fault(&handler(), &[("no name", "x")], page()), HeaderError::InvalidName);
    assert_eq!(fault(&handler(), &[("", "x")], page()), HeaderError::InvalidName);
    assert_eq!(fault(&handler(), &[("name", "a\nb")], page()), HeaderError::InvalidValue);
    // The name is looked at first, and the first field before the second.
    assert_eq!(fault(&handler(), &[("no name", "a\nb")], page()), HeaderError::InvalidName);
    assert_eq!(
        fault(&handler(), &[("name", "a\nb"), ("no name", "x")], page()),
        HeaderError::InvalidValue
    );
    assert_eq!(fault(&handler(), &[], asset("text\n", None)), HeaderError::InvalidValue);
    assert_eq!(fault(&handler(), &[], asset("x", Some("\0"))), HeaderError::InvalidValue);
    assert_eq!(fault(&get("x", "tauri://\r").0, &[], page()), HeaderError::InvalidValue);
}

#[test]
fn values_may_hold_tabs_and_bytes_above_ascii() {
    let (_, pending) = bundled(&handler(), "tauri://localhost/", &[("A", "x\ty"), ("B", "\u{e4}")]);
    let response = pending.found(asset("", None)).unwrap();
    assert_eq!(values(&response.headers, "a"), vec!["x\ty"]);
    assert_eq!(values(&response.headers, "b"), vec!["\u{e4}"]);
    assert_eq!(values(&response.headers, "content-type"), vec![""]);
    assert_eq!(
        fault(&handler(), &[("A", "\u{7f}")], asset("", None)),
        HeaderError::InvalidValue
    );
}

#[test]
fn a_header_map_can_be_full() {
    let many = |n: usize| {
        (0..n).map(|i| (format!("x-{i}"), "v".to_string())).collect::<Vec<(String, String)>>()
    };
    let found = |fields: &Vec<(String, String)>| {
        match handler().get_response(&mut request("tauri://localhost/"), false, false, fields) {
            Exchange::Asset(_, pending) => pending.found(asset("text/html", None)),
            Exchange::Proxy(..) => panic!("proxied"),
        }
    };
    let response = found(&many(6000)).unwrap();
    assert_eq!(response.headers.len(), 6002);
    assert_eq!(values(&response.headers, "x-5999"), vec!["v"]);
    assert_eq!(found(&many(30000)).unwrap_err(), HeaderError::MaxSizeReached);
    // Many values of one name are no trouble.
    let same = vec![("x".to_string(), "v".to_string()); 9000];
    assert_eq!(values(&found(&same).unwrap().headers, "x").len(), 9000);
}

#[test]
fn faults_have_words() {
    assert_eq!(HeaderError::InvalidName.message(), "invalid HTTP header name");
    assert_eq!(HeaderError::InvalidValue.message(), "failed to parse header value");
    assert_eq!(HeaderError::MaxSizeReached.message(), "max size reached");
    // They are those of the `http` crate.
    let error = http::Response::builder().header("a b", "").body(()).unwrap_err();
    assert_eq!(error.to_string(), HeaderError::InvalidName.message());
    let error = http::Response::builder().header("a", "\n").body(()).unwrap_err();
    assert_eq!(error.to_string(), HeaderError::InvalidValue.message());
}

#[test]
fn an_answer_is_passed_on_with_its_true_length() {
    let mut cache = ResponseCache::new();
    let answer = answer(
        &mut cache,
        "tauri://localhost/x",
        reply(
            200,
            &[
                ("Content-Length", "999"),
                ("Content-Type", "text/plain"),
                ("Set-Cookie", "a"),
                ("Set-Cookie", "b"),
                ("Cache-Control", "no-cache"),
                ("Content-Range", "bytes 0-4/5"),
                ("Access-Control-Allow-Origin", "*"),
            ],
            "hello",
        ),
    );
    assert!(answer.open_to_handler);
    assert_eq!(answer.response.status, 200);
    assert_eq!(answer.response.body, b"hello");
    let headers = answer.response.headers;
    assert_eq!(values(&headers, "content-length"), vec!["5"]);
    assert_eq!(values(&headers, "content-type"), vec!["text/plain"]);
    assert_eq!(values(&headers, "set-cookie"), vec!["a", "b"]);
    assert_eq!(values(&headers, "cache-control"), vec!["no-cache"]);
    assert_eq!(values(&headers, "content-range"), vec!["bytes 0-4/5"]);
    assert_eq!(values(&headers, "access-control-allow-origin"), vec![ORIGIN, "*"]);
}

#[test]
fn an_unchanged_response_is_replayed() {
    let mut cache = ResponseCache::new();
    let fields = [("ETag", "1"), ("Content-Length", "5")];
    answer(&mut cache, "tauri://localhost/x", reply(200, &fields, "hello"));
    let again =
        answer(&mut cache, "tauri://localhost/x", reply(304, &[("ETag", "2")], "ignored"));
    assert!(!again.open_to_handler);
    assert_eq!(again.response.status, 200);
    assert_eq!(again.response.body, b"hello");
    assert_eq!(
        again.response.headers,
        header_map(&[
            ("access-control-allow-origin", ORIGIN),
            ("etag", "1"),
            ("content-length", "5"),
        ])
    );
}

#[test]
fn nothing_is_replayed_for_another_url() {
    let mut cache = ResponseCache::new();
    answer(&mut cache, "tauri://localhost/x", reply(200, &[], "hello"));
    let other = answer(&mut cache, "tauri://localhost/y", reply(304, &[("ETag", "2")], ""));
    assert!(other.open_to_handler);
    assert_eq!(other.response.status, 304);
    assert!(other.response.body.is_empty());
    assert_eq!(values(&other.response.headers, "etag"), vec!["2"]);
    assert_eq!(values(&other.response.headers, "content-length"), vec!["0"]);
}

#[test]
fn the_last_whole_response_is_kept() {
    let mut cache = ResponseCache::new();
    let uri = "tauri://localhost/x";
    answer(&mut cache, uri, reply(200, &[], "one"));
    answer(&mut cache, uri, reply(200, &[], "two"));
    answer(&mut cache, uri, reply(500, &[], "three"));
    answer(&mut cache, uri, reply(206, &[("Content-Range", "bytes 0-3/4")], "four"));
    answer(&mut cache, "tauri://localhost/y", reply(200, &[], "five"));
    assert_eq!(answer(&mut cache, uri, reply(304, &[], "")).response.body, b"two");
    let kept = cache.get("http://localhost:1420/x").unwrap();
    assert_eq!((kept.status, kept.body.as_slice()), (200, b"two".as_slice()));
    assert!(cache.get("http://localhost:1420/z").is_none());
}

#[test]
fn the_cache_keeps_one_response_for_each_url() {
    let mut cache = ResponseCache::new();
    let response = |status: u16| CachedResponse { status, headers: HeaderMap::new(), body: vec![] };
    assert!(cache.get("a").is_none());
    cache.insert("a".to_string(), response(1));
    cache.insert("b".to_string(), response(2));
    cache.insert("a".to_string(), response(3));
    assert_eq!(cache.get("a").unwrap().status, 3);
    assert_eq!(cache.get("b").unwrap().status, 2);
}

#[test]
fn a_range_that_is_everything_becomes_an_ordinary_response() {
    let mut cache = ResponseCache::new();
    let answer = answer(
        &mut cache,
        "tauri://localhost/movie",
        reply(
            206,
            &[
                ("Content-Range", "bytes 0-4/5"),
                ("Cache-Control", "no-store"),
                ("Pragma", "no-cache"),
                ("Content-Length", "5"),
                ("Accept-Ranges", "bytes"),
            ],
            "hello",
        ),
    );
    assert_eq!(answer.response.status, 200);
    assert_eq!(
        answer.response.headers,
        header_map(&[
            ("access-control-allow-origin", ORIGIN),
            ("accept-ranges", "bytes"),
            ("content-length", "5"),
            ("cache-control", "public, max-age=31536000, immutable"),
        ])
    );
    assert!(cache.get("http://localhost:1420/movie").is_none());
}

#[test]
fn a_part_is_not_cached() {
    let mut cache = ResponseCache::new();
    let answer = answer(
        &mut cache,
        "tauri://localhost/movie",
        reply(
            206,
            &[
                ("Content-Range", "bytes 1-4/5"),
                ("Cache-Control", "max-age=9"),
                ("Pragma", "x"),
                ("Content-Length", "4"),
            ],
            "ello",
        ),
    );
    assert!(answer.open_to_handler);
    assert_eq!(answer.response.status, 206);
    assert_eq!(
        answer.response.headers,
        header_map(&[
            ("access-control-allow-origin", ORIGIN),
            ("content-range", "bytes 1-4/5"),
            ("content-length", "4"),
            ("cache-control", "no-store, no-cache, must-revalidate"),
            ("pragma", "no-cache"),
        ])
    );
    assert!(cache.get("http://localhost:1420/movie").is_none());
}

#[test]
fn only_the_first_readable_range_counts() {
    let status = |headers: HeaderMap| {
        let mut cache = ResponseCache::new();
        let reply = UpstreamReply { status: 206, headers, body: vec![] };
        answer(&mut cache, "tauri://localhost/x", reply).response.status
    };
    assert_eq!(status(HeaderMap::new()), 206);
    let ranges = [("Content-Range", "bytes 0-4/5"), ("Content-Range", "bytes 1-4/5")];
    assert_eq!(status(header_map(&ranges)), 200);
    let ranges = [("Content-Range", "bytes 1-4/5"), ("Content-Range", "bytes 0-4/5")];
    assert_eq!(status(header_map(&ranges)), 206);
    // A value that is not visible ASCII is no range.
    assert_eq!(status(header_map(&[("Content-Range", "bytes 0-4/5\u{e4}")])), 206);
}

#[test]
fn a_fault_shows_only_after_the_response_was_kept() {
    let mut cache = ResponseCache::new();
    let handler = get("http://localhost:1420", "http://tauri.localhost\n").0;
    let result = proxied(&handler, "tauri://localhost/x").1.received(&mut cache, reply(200, &[], "a"));
    assert_eq!(result.unwrap_err(), HeaderError::InvalidValue);
    assert!(cache.get("http://localhost:1420/x").is_some());
}

#[test]
fn failures_are_told_in_words() {
    let message = |status: Option<u16>, ios: bool| {
        proxied(&handler(), "tauri://localhost/x").1.failed("refused", status, ios)
    };
    let start = "Failed to request http://localhost:1420/x: refused";
    assert_eq!(message(None, false), start);
    assert_eq!(message(Some(404), false), format!("{start}status code: 404"));
    assert_eq!(message(Some(404), true), message(Some(404), false));
    let hint = ", did you grant local network permissions? That is required to reach the development server. Please grant the permission via the prompt or in `Settings > Privacy & Security > Local Network` and restart the app. See https://support.apple.com/en-us/102229 for more information.";
    assert_eq!(message(None, true), format!("{start}{hint}"));
}

#[test]
fn a_failure_is_answered_with_plain_text() {
    let handler = handler();
    assert!(handler.origin_is_sendable());
    let response = handler.respond(Err("asset not found".to_string()));
    assert_eq!(response.status, 500);
    assert_eq!(response.body, b"asset not found");
    assert_eq!(
        response.headers,
        header_map(&[("content-type", "text/plain"), ("access-control-allow-origin", ORIGIN)])
    );
    assert_eq!(handler.error_response("x\n").body, b"x\n");
}

#[test]
fn a_response_is_handed_on() {
    let response = Response { status: 201, headers: header_map(&[("a", "b")]), body: vec![1] };
    let handed = handler().respond(Ok(response));
    assert_eq!((handed.status, handed.body), (201, vec![1]));
    assert_eq!(handed.headers, header_map(&[("a", "b")]));
}

#[test]
fn some_origins_cannot_be_sent() {
    assert!(!get("x", "tauri://local\nhost").0.origin_is_sendable());
    assert!(get("x", "tauri://localhost").0.origin_is_sendable());
}

#[test]
fn a_builder_forwards_what_passes() {
    let from = header_map(&[
        ("content-length", "1"),
        ("content-range", "2"),
        ("cache-control", "3"),
        ("pragma", "4"),
        ("other", "5"),
    ]);
    let names = |rule: Forwarding| {
        let map = ResponseBuilder::new().forward(&from, rule).finish().unwrap();
        let mut names: Vec<String> = map.keys().map(|name| name.as_str().to_string()).collect();
        names.sort();
        names.join(" ")
    };
    assert_eq!(
        names(Forwarding::Everything),
        "cache-control content-length content-range other pragma"
    );
    assert_eq!(names(Forwarding::Plain), "cache-control content-range other pragma");
    assert_eq!(names(Forwarding::WholeRange), "other");
    assert_eq!(names(Forwarding::Part), "content-range other");
}

#[test]
fn a_builder_keeps_names_in_lower_case() {
    let map = ResponseBuilder::new()
        .header("X-Name", b"one")
        .header("x-name", b"two")
        .finish()
        .unwrap();
    assert_eq!(map.keys().next().unwrap().as_str(), "x-name");
    assert_eq!(values(&map, "x-name"), vec!["one", "two"]);
    let faulty = ResponseBuilder::new().header("a b", b"").header("c", b"\n");
    assert_eq!(faulty.forward(&map, Forwarding::Plain).finish(), Err(HeaderError::InvalidName));
}

#[test]
fn names_and_values_are_handed_on_as_they_are() {
    let mut value = HeaderValue::from_static("secret");
    value.set_sensitive(true);
    let mut headers = HeaderMap::new();
    headers.append("x-secret", value);
    // A map takes long names without looking at their characters.
    headers.append(
        "a name with spaces that is longer than the sixty-four bytes of a short one",
        HeaderValue::from_static("1"),
    );
    let long = headers.keys().find(|name| name.as_str().len() > 64).unwrap().clone();
    assert!(HeaderName::from_bytes(long.as_str().as_bytes()).is_err());

    let mut cache = ResponseCache::new();
    let reply = UpstreamReply { status: 200, headers, body: vec![] };
    let fresh = answer(&mut cache, "tauri://localhost/x", reply).response.headers;
    let unchanged = UpstreamReply { status: 304, headers: HeaderMap::new(), body: vec![] };
    let kept = answer(&mut cache, "tauri://localhost/x", unchanged).response.headers;
    for map in [fresh, kept] {
        assert!(map.get("x-secret").unwrap().is_sensitive());
        assert_eq!(map.get(&long).unwrap(), "1");
    }
}

#[test]
fn the_origin_comes_after_those_of_the_configuration() {
    let allowed = |fields: &[(&str, &str)]| {
        let mut request = request("tauri://localhost/x");
        let exchange = handler().get_response(&mut request, true, false, &configured(fields));
        let Exchange::Proxy(_, pending) = exchange else { panic!("not proxied") };
        let reply = reply(200, &[("Access-Control-Allow-Origin", "*")], "");
        let answer = pending.received(&mut ResponseCache::new(), reply).unwrap();
        values(&answer.response.headers, "access-control-allow-origin")
    };
    assert_eq!(allowed(&[]), vec![ORIGIN, "*"]);
    let one = [("access-control-ALLOW-origin", "http://one.example")];
    assert_eq!(allowed(&one), vec!["http://one.example", ORIGIN, "*"]);
}

#[test]
fn an_unchanged_response_is_replayed_after_other_answers() {
    let mut cache = ResponseCache::new();
    let uri = "tauri://localhost/x";
    answer(&mut cache, uri, reply(200, &[("ETag", "1")], "whole"));
    answer(&mut cache, uri, reply(206, &[("Content-Range", "bytes 1-2/5")], "ho"));
    answer(&mut cache, "tauri://localhost/y", reply(200, &[("ETag", "2")], "other"));
    answer(&mut cache, uri, reply(304, &[("ETag", "3")], ""));
    answer(&mut cache, uri, reply(404, &[], "gone"));
    let again = answer(&mut cache, uri, reply(304, &[("ETag", "4"), ("X-Own", "1")], "own"));
    assert!(!again.open_to_handler);
    assert_eq!(again.response.status, 200);
    assert_eq!(again.response.body, b"whole");
    assert_eq!(
        again.response.headers,
        header_map(&[("access-control-allow-origin", ORIGIN), ("etag", "1")])
    );
}

#[test]
fn handlers_share_no_cache() {
    let (first, mut first_cache) = get("http://localhost:1420/", ORIGIN);
    let (second, mut second_cache) = get("http://localhost:1420/", ORIGIN);
    let serve = |handler: &ProtocolHandler, cache: &mut ResponseCache, status: u16, body: &str| {
        let pending = proxied(handler, "tauri://localhost/x").1;
        let answer = pending.received(cache, reply(status, &[], body)).unwrap();
        (answer.response.status, answer.response.body)
    };
    serve(&first, &mut first_cache, 200, "whole");
    assert_eq!(serve(&first, &mut first_cache, 304, ""), (200, b"whole".to_vec()));
    assert_eq!(serve(&second, &mut second_cache, 304, ""), (304, vec![]));
}

#[test]
fn the_handler_has_its_turn_on_assets() {
    let answered = |has_handler: bool| {
        let (_, pending) = bundled(&handler(), "tauri://localhost/", &[]);
        let answer = pending.answered(asset("text/html", None)).unwrap();
        assert!(answer.open_to_handler);
        answer.turn(has_handler)
    };
    match answered(true) {
        Turn::Handler(response) => {
            assert_eq!((response.status, response.body), (200, b"<html>".to_vec()));
            assert_eq!(values(&response.headers, "content-type"), vec!["text/html"]);
        }
        Turn::Respond(_) => panic!("the handler was passed over"),
    }
    assert!(matches!(answered(false), Turn::Respond(_)));
    let (_, pending) = bundled(&handler(), "tauri://localhost/", &[("a b", "c")]);
    assert_eq!(
        pending.answered(asset("text/html", None)).unwrap_err(),
        HeaderError::InvalidName
    );
}

#[test]
fn the_handler_has_no_turn_on_replayed_responses() {
    let mut cache = ResponseCache::new();
    let uri = "tauri://localhost/x";
    let fresh = answer(&mut cache, uri, reply(200, &[], "whole"));
    assert!(matches!(fresh.turn(true), Turn::Handler(_)));
    let again = answer(&mut cache, uri, reply(304, &[], ""));
    assert!(matches!(again.turn(true), Turn::Respond(_)));
}
