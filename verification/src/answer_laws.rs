//! What requests ask for and what their answers hold, field by field.
use vstd::prelude::*;
use vstd::string::*;
use vstd::utf8::{encode_utf8, is_ascii_chars_encode_utf8};
use crate::builder::{appended_all, crowded, pairs_view, Forwarding, HeaderError};
use crate::content_range::{content_range, is_whole_resource, law_range_is_read};
use crate::fields::{
    ascii_text, canonical, header_fields, is_name, is_value, is_visible, no_fields, values, Fields,
};
use crate::percent::decoded_text;
use crate::protocol::{
    answer_names, answer_to, asset_fields, begun, cache_after, common_fields, error_view,
    failure_message, forwarding_of, has_whole_range, lemma_names, replays, requested_path,
    upstream_url, without_last_slash, Asset, UpstreamReply,
};
use crate::protocol_laws::{lemma_distinct_names, lemma_own_fields};
use crate::response::{CachedResponse, Response, ResponseView};
use crate::text::{
    digits, first_of, law_after_prefix, law_decimal_round_trip, law_numbers_are_read, law_trim_end,
    law_trim_start, lemma_first_of_unique, parsed_u64, trim_end, trim_start,
};
use crate::uri::{parts_view, UriParts};

verus! {

/// What is said of a response, of one that is kept and of a reply is all that
/// they hold; and so it is of a URI and of the configured fields.
pub proof fn law_views_leave_nothing_out(
    response: Response,
    kept: CachedResponse,
    reply: UpstreamReply,
    uri: UriParts,
    configured: Seq<(String, String)>,
)
    ensures
        response@.status == response.status && response@.body == response.body@,
        response@.headers == header_fields(response.headers),
        kept@.status == kept.status && kept@.body == kept.body@,
        kept@.headers == header_fields(kept.headers),
        reply@.status == reply.status && reply@.body == reply.body@,
        reply@.headers == header_fields(reply.headers),
        parts_view(uri).0 == uri.text@ && parts_view(uri).1 == uri.path@,
        uri.scheme matches Some(scheme) ==> parts_view(uri).2 == Some(scheme@),
        uri.scheme is None ==> parts_view(uri).2 is None,
        pairs_view(configured).len() == configured.len(),
        forall|i: int|
            0 <= i < configured.len() ==> #[trigger] pairs_view(configured)[i] == (
                configured[i].0@,
                configured[i].1@,
            ),
{
}

/// Whether a text holds neither a question mark nor a number sign.
spec fn is_plain(text: Seq<char>) -> bool {
    forall|i: int| 0 <= i < text.len() ==> #[trigger] text[i] != '?' && text[i] != '#'
}

/// Whether a text is empty or begins with a question mark or a number sign.
spec fn is_tail(text: Seq<char>) -> bool {
    text.len() > 0 ==> text[0] == '?' || text[0] == '#'
}

proof fn lemma_front(front: Seq<char>, tail: Seq<char>)
    requires
        is_plain(front),
        is_tail(tail),
    ensures
        (front + tail).take(first_of(front + tail, "?#"@)) == front,
{
    let stops = "?#"@;
    let whole = front + tail;
    reveal_strlit("?#");
    assert(stops.len() == 2 && stops[0] == '?' && stops[1] == '#');
    assert forall|i: int| 0 <= i < front.len() implies !stops.contains(#[trigger] whole[i]) by {
        assert(whole[i] == front[i]);
    }
    if tail.len() > 0 {
        assert(whole[front.len() as int] == tail[0]);
        assert(stops.contains(tail[0]));
    }
    lemma_first_of_unique(whole, stops, front.len() as int);
    assert(whole.take(front.len() as int) =~= front);
}

/// The asset that is asked for is all of the URI between the window's origin
/// and the query or the fragment.
pub proof fn law_asset_is_what_follows_the_origin(
    origin: Seq<char>,
    path: Seq<char>,
    tail: Seq<char>,
)
    requires
        forall|i: int| 0 <= i < origin.len() ==> #[trigger] origin[i] != '?' && origin[i] != '#',
        forall|i: int| 0 <= i < path.len() ==> #[trigger] path[i] != '?' && path[i] != '#',
        tail.len() > 0 ==> tail[0] == '?' || tail[0] == '#',
    ensures
        requested_path(origin + path + tail, origin, false) == path,
        requested_path(origin + path, origin, false) == path,
{
    let front = origin + path;
    assert(is_plain(front));
    lemma_front(front, tail);
    lemma_front(front, Seq::empty());
    assert(front + Seq::<char>::empty() =~= front);
    law_after_prefix(origin, path, front);
}

/// The same holds of `tauri://localhost`, where the URI does not begin with the
/// window's origin. Where it begins with neither, no asset is named.
pub proof fn law_asset_is_what_follows_the_common_origin(
    origin: Seq<char>,
    path: Seq<char>,
    front: Seq<char>,
    tail: Seq<char>,
)
    requires
        forall|i: int| 0 <= i < path.len() ==> #[trigger] path[i] != '?' && path[i] != '#',
        forall|i: int| 0 <= i < front.len() ==> #[trigger] front[i] != '?' && front[i] != '#',
        tail.len() > 0 ==> tail[0] == '?' || tail[0] == '#',
    ensures
        !origin.is_prefix_of("tauri://localhost"@ + path) ==> requested_path(
            "tauri://localhost"@ + path + tail,
            origin,
            false,
        ) == path,
        !origin.is_prefix_of(front) && !"tauri://localhost"@.is_prefix_of(front) ==> requested_path(
            front + tail,
            origin,
            false,
        ) == Seq::<char>::empty(),
{
    let common = "tauri://localhost"@ + path;
    reveal_strlit("tauri://localhost");
    assert(is_plain("tauri://localhost"@));
    assert(is_plain(common));
    lemma_front(common, tail);
    lemma_front(front, tail);
    law_after_prefix("tauri://localhost"@, path, common);
}

/// The development server is asked for all that follows the window's origin,
/// or else `tauri://localhost`, whatever it holds; for nothing where the URI
/// begins with neither.
pub proof fn law_server_is_asked_for_what_follows_the_origin(
    origin: Seq<char>,
    rest: Seq<char>,
    uri: Seq<char>,
)
    ensures
        requested_path(origin + rest, origin, true) == rest,
        !origin.is_prefix_of("tauri://localhost"@ + rest) ==> requested_path(
            "tauri://localhost"@ + rest,
            origin,
            true,
        ) == rest,
        !origin.is_prefix_of(uri) && !"tauri://localhost"@.is_prefix_of(uri) ==> requested_path(
            uri,
            origin,
            true,
        ) == Seq::<char>::empty(),
{
    law_after_prefix(origin, rest, uri);
    law_after_prefix("tauri://localhost"@, rest, uri);
}

/// The URL that the development server is asked for is its own URL, one slash,
/// and the decoded path, however many slashes end the one and begin the other.
pub proof fn law_upstream_url(
    server: Seq<char>,
    ending: Seq<char>,
    path: Seq<char>,
    beginning: Seq<char>,
    page: Seq<char>,
)
    requires
        server.len() > 0 ==> server.last() != '/',
        forall|i: int| 0 <= i < ending.len() ==> #[trigger] ending[i] == '/',
        decoded_text(path) == beginning + page,
        forall|i: int| 0 <= i < beginning.len() ==> #[trigger] beginning[i] == '/',
        page.len() > 0 ==> page[0] != '/',
    ensures
        upstream_url(server + ending, path) == server + seq!['/'] + page,
{
    reveal_strlit("/");
    assert("/"@ =~= seq!['/']);
    let base = server + ending;
    let text = beginning + page;
    law_trim_end(base, '/');
    law_trim_start(text, '/');
    let kept = trim_end(base, '/');
    if kept.len() < server.len() {
        assert(base[server.len() - 1] == server.last());
    } else if kept.len() > server.len() {
        assert(kept.last() == base[kept.len() - 1]);
        assert(base[kept.len() - 1] == ending[kept.len() - 1 - server.len()]);
    }
    assert(kept =~= server);
    let left = trim_start(text, '/');
    let at = text.len() - left.len();
    if at < beginning.len() {
        assert(left[0] == text[at]);
        assert(text[at] == beginning[at]);
    } else if at > beginning.len() {
        assert(text[beginning.len() as int] == page[0]);
    }
    assert(left =~= page);
}

/// Of the application's URL one slash at the end is taken off, if it has one.
pub proof fn law_one_slash_is_taken_off(url: Seq<char>)
    ensures
        without_last_slash(url + seq!['/']) == url,
        url.len() == 0 || url.last() != '/' ==> without_last_slash(url) == url,
{
    let longer = url + seq!['/'];
    assert(longer.last() == '/');
    assert(longer.drop_last() =~= url);
}

/// A map with fewer than 6554 names takes every field.
pub proof fn law_few_names_are_no_crowd(names: Set<Seq<char>>)
    ensures
        crowded(names) <==> !names.finite() || names.len() >= 6554,
{
}

/// With fewer than 6553 configured fields, a response has its common fields or
/// their first fault; it is never refused for the number of its names.
pub proof fn law_few_configured_fields(
    fields: Result<Fields, HeaderError>,
    configured: Seq<(Seq<char>, Seq<char>)>,
    origin: Seq<char>,
)
    requires
        begun(fields, configured, origin),
        configured.len() < 6553,
    ensures
        fields == common_fields(configured, origin),
{
    let names = configured.map_values(|field: (Seq<char>, Seq<char>)| canonical(field.0));
    vstd::seq_lib::seq_to_set_is_finite(names);
    names.lemma_cardinality_of_set();
}

/// The names that an answer may need are those of its common fields, those that
/// it takes over, and the three that are set on it.
pub proof fn law_names_of_an_answer(
    common: Fields,
    cache: Map<Seq<char>, ResponseView>,
    url: Seq<char>,
    reply: ResponseView,
    name: Seq<char>,
)
    ensures
        answer_names(common, cache, url, reply).contains(name) ==> {
            ||| common.dom().contains(name)
            ||| reply.status == 304 && cache.dom().contains(url) && cache[url].headers.dom().contains(
                name,
            )
            ||| !(reply.status == 304 && cache.dom().contains(url)) && (reply.headers.dom().contains(
                name,
            ) || name == "content-length"@ || name == "cache-control"@ || name == "pragma"@)
        },
{
}

/// Whether a configured field can be sent.
spec fn is_field(field: (Seq<char>, Seq<char>)) -> bool {
    is_name(field.0) && is_value(encode_utf8(field.1))
}

/// The values that the fields of a list give to a name, in their order.
spec fn given(list: Seq<(Seq<char>, Seq<char>)>, name: Seq<char>) -> Seq<Seq<u8>> {
    list.filter(|field: (Seq<char>, Seq<char>)| canonical(field.0) == name).map_values(
        |field: (Seq<char>, Seq<char>)| encode_utf8(field.1),
    )
}

proof fn lemma_given(list: Seq<(Seq<char>, Seq<char>)>, name: Seq<char>)
    requires
        forall|i: int| 0 <= i < list.len() ==> is_field(#[trigger] list[i]),
    ensures
        appended_all(Ok::<_, HeaderError>(no_fields()), list) is Ok,
        values(appended_all(Ok::<_, HeaderError>(no_fields()), list)->Ok_0, name) == given(
            list,
            name,
        ),
        appended_all(Ok::<_, HeaderError>(no_fields()), list)->Ok_0.dom().contains(name)
            <==> given(list, name).len() > 0,
    decreases list.len(),
{
    reveal(Seq::filter);
    if list.len() == 0 {
        assert(given(list, name) =~= Seq::empty());
        assert(values(no_fields(), name) =~= Seq::empty());
    } else {
        let some = list.drop_last();
        assert forall|i: int| 0 <= i < some.len() implies is_field(#[trigger] some[i]) by {
            assert(some[i] == list[i]);
        }
        lemma_given(some, name);
        assert(is_field(list[list.len() - 1]));
        if canonical(list.last().0) == name {
            assert(given(list, name) =~= given(some, name).push(encode_utf8(list.last().1)));
        } else {
            assert(given(list, name) =~= given(some, name));
        }
    }
}

/// Every response has all configured fields, in their order, and after them the
/// window's origin; nothing else.
pub proof fn law_common_fields(
    configured: Seq<(Seq<char>, Seq<char>)>,
    origin: Seq<char>,
    name: Seq<char>,
)
    requires
        forall|i: int|
            0 <= i < configured.len() ==> is_name((#[trigger] configured[i]).0) && is_value(
                encode_utf8(configured[i].1),
            ),
        is_value(encode_utf8(origin)),
    ensures
        ({
            let common = common_fields(configured, origin);
            let given = configured.filter(
                |field: (Seq<char>, Seq<char>)| canonical(field.0) == name,
            ).map_values(|field: (Seq<char>, Seq<char>)| encode_utf8(field.1));
            &&& common is Ok
            &&& name != "access-control-allow-origin"@ ==> values(common->Ok_0, name) == given
            &&& name == "access-control-allow-origin"@ ==> values(common->Ok_0, name)
                == given.push(encode_utf8(origin))
            &&& common->Ok_0.dom().contains(name) <==> values(common->Ok_0, name).len() > 0
        }),
{
    lemma_names();
    assert forall|i: int| 0 <= i < configured.len() implies is_field(
        #[trigger] configured[i],
    ) by {}
    lemma_given(configured, name);
}

proof fn lemma_fault_stays(list: Seq<(Seq<char>, Seq<char>)>, at: int)
    requires
        0 <= at < list.len(),
        forall|i: int| 0 <= i < at ==> is_field(#[trigger] list[i]),
        !is_field(list[at]),
    ensures
        appended_all(Ok::<_, HeaderError>(no_fields()), list) == Err::<Fields, _>(
            if is_name(list[at].0) {
                HeaderError::InvalidValue
            } else {
                HeaderError::InvalidName
            },
        ),
    decreases list.len(),
{
    let some = list.drop_last();
    assert forall|i: int| 0 <= i < some.len() && i < at implies is_field(#[trigger] some[i]) by {
        assert(some[i] == list[i]);
    }
    if at < some.len() {
        assert(some[at] == list[at]);
        lemma_fault_stays(some, at);
    } else {
        lemma_given(some, Seq::empty());
    }
}

/// The first configured field that cannot be sent decides: a name that is none,
/// or else a value that is none. If all can be sent, the origin decides.
pub proof fn law_first_fault(
    configured: Seq<(Seq<char>, Seq<char>)>,
    origin: Seq<char>,
    at: int,
)
    requires
        0 <= at <= configured.len(),
        forall|i: int|
            0 <= i < at ==> is_name((#[trigger] configured[i]).0) && is_value(
                encode_utf8(configured[i].1),
            ),
        at < configured.len() ==> !is_name(configured[at].0) || !is_value(
            encode_utf8(configured[at].1),
        ),
        at == configured.len() ==> !is_value(encode_utf8(origin)),
    ensures
        common_fields(configured, origin) == Err::<Fields, _>(
            if at < configured.len() && !is_name(configured[at].0) {
                HeaderError::InvalidName
            } else {
                HeaderError::InvalidValue
            },
        ),
{
    lemma_names();
    assert forall|i: int| 0 <= i < at implies is_field(#[trigger] configured[i]) by {}
    if at < configured.len() {
        lemma_fault_stays(configured, at);
    } else {
        lemma_given(configured, Seq::empty());
    }
}

/// An answer is replayed if and only if its status is 304 and a response is
/// kept for the URL. A response is kept if and only if its status is 200, as
/// it is; all else in the cache stays.
pub proof fn law_what_is_kept(
    cache: Map<Seq<char>, ResponseView>,
    url: Seq<char>,
    reply: ResponseView,
    other: Seq<char>,
)
    ensures
        replays(cache, url, reply) <==> reply.status == 304 && cache.dom().contains(url),
        reply.status == 200 ==> cache_after(cache, url, reply).dom().contains(url) && cache_after(
            cache,
            url,
            reply,
        )[url] == reply,
        reply.status != 200 ==> cache_after(cache, url, reply) == cache,
        other != url ==> (cache_after(cache, url, reply).dom().contains(other)
            <==> cache.dom().contains(other)) && (cache.dom().contains(other) ==> cache_after(
            cache,
            url,
            reply,
        )[other] == cache[other]),
{
}

/// A fault of the common fields is the answer to every request.
pub proof fn law_faults_are_answered(
    fault: HeaderError,
    cache: Map<Seq<char>, ResponseView>,
    url: Seq<char>,
    reply: ResponseView,
)
    ensures
        answer_to(Err(fault), cache, url, reply) == Err::<ResponseView, _>(fault),
{
}

/// A kept response is replayed with its status, its body and all its fields,
/// after the common ones.
pub proof fn law_replayed_answer(
    common: Fields,
    cache: Map<Seq<char>, ResponseView>,
    url: Seq<char>,
    reply: ResponseView,
    name: Seq<char>,
)
    requires
        reply.status == 304,
        cache.dom().contains(url),
    ensures
        ({
            let answer = answer_to(Ok::<_, HeaderError>(common), cache, url, reply);
            &&& answer is Ok
            &&& answer->Ok_0.status == cache[url].status
            &&& answer->Ok_0.body == cache[url].body
            &&& values(answer->Ok_0.headers, name) == values(common, name) + values(
                cache[url].headers,
                name,
            )
            &&& answer->Ok_0.headers.dom().contains(name) <==> common.dom().contains(name)
                || cache[url].headers.dom().contains(name)
        }),
{
    let answer = answer_to(Ok::<_, HeaderError>(common), cache, url, reply)->Ok_0;
    assert(values(answer.headers, name) =~= values(common, name) + values(
        cache[url].headers,
        name,
    ));
}

/// An answer that is neither replayed nor a range has the status and the body
/// of the reply, and all its fields after the common ones, whatever their
/// names; only the content length is set anew.
pub proof fn law_ordinary_answer(
    common: Fields,
    cache: Map<Seq<char>, ResponseView>,
    url: Seq<char>,
    reply: ResponseView,
    name: Seq<char>,
)
    requires
        reply.status != 206,
        reply.status != 304 || !cache.dom().contains(url),
    ensures
        ({
            let answer = answer_to(Ok::<_, HeaderError>(common), cache, url, reply);
            &&& answer is Ok
            &&& answer->Ok_0.status == reply.status
            &&& answer->Ok_0.body == reply.body
            &&& name != "content-length"@ ==> values(answer->Ok_0.headers, name) == values(
                common,
                name,
            ) + values(reply.headers, name)
            &&& name == "content-length"@ ==> values(answer->Ok_0.headers, name) == values(
                common,
                name,
            ).push(encode_utf8(digits(reply.body.len())))
            &&& name != "content-length"@ ==> (answer->Ok_0.headers.dom().contains(name)
                <==> common.dom().contains(name) || reply.headers.dom().contains(name))
        }),
{
    lemma_own_fields(common, reply, name);
    lemma_distinct_names();
    let answer = answer_to(Ok::<_, HeaderError>(common), cache, url, reply)->Ok_0;
    assert(forwarding_of(reply) == Forwarding::Plain);
    assert(forwarding_of(reply).passes(name) <==> name != "content-length"@);
    if name != "content-length"@ {
        let all = values(common, name) + values(reply.headers, name);
        assert(all + Seq::<Seq<u8>>::empty() =~= all);
    } else {
        assert(values(answer.headers, name) =~= values(common, name).push(
            encode_utf8(digits(reply.body.len())),
        ));
    }
}

proof fn lemma_range_value(
    a: Seq<char>,
    b: Seq<char>,
    c: Seq<char>,
    from: nat,
    to: nat,
    length: nat,
)
    requires
        parsed_u64(a) == Some(from),
        parsed_u64(b) == Some(to),
        parsed_u64(c) == Some(length),
    ensures
        ({
            let value = encode_utf8("bytes "@ + a + seq!['-'] + b + seq!['/'] + c);
            &&& is_visible(value)
            &&& is_whole_resource(ascii_text(value)) <==> from == 0 && to + 1 == length
        }),
{
    let text = "bytes "@ + a + seq!['-'] + b + seq!['/'] + c;
    reveal_strlit("bytes ");
    law_numbers_are_read(a, a);
    law_numbers_are_read(b, b);
    law_numbers_are_read(c, c);
    let head = "bytes "@;
    assert forall|i: int| 0 <= i < text.len() implies 32 <= #[trigger] text[i] as int && (
    text[i] as int) < 127 by {
        if i < 6 {
            assert(text[i] == head[i]);
        } else if i < 6 + a.len() {
            assert(text[i] == a[i - 6]);
        } else if i == 6 + a.len() {
            assert(text[i] == '-');
        } else if i < 7 + a.len() + b.len() {
            assert(text[i] == b[i - 7 - a.len()]);
        } else if i == 7 + a.len() + b.len() {
            assert(text[i] == '/');
        } else {
            assert(text[i] == c[i - 8 - a.len() - b.len()]);
        }
    }
    is_ascii_chars_encode_utf8(text);
    let bytes = encode_utf8(text);
    assert forall|i: int| 0 <= i < bytes.len() implies 32 <= #[trigger] bytes[i] < 127 && bytes[i]
        as char == text[i] by {
        assert(bytes[i] == text[i] as u8);
        assert(32 <= text[i] as int && (text[i] as int) < 127);
    }
    assert(ascii_text(bytes) =~= text);
    law_range_is_read(a, b, c, from, to, length);
}

/// A reply of status 206 is answered by its first range, however the numbers in
/// it are written. If that is everything,
/// it becomes an ordinary response, without range and free to be cached. If it
/// is not, it stays a part with its range, which must not be cached. All other
/// fields pass, whatever their names, and the body is that of the reply.
pub proof fn law_range_decides_however_written(
    common: Fields,
    cache: Map<Seq<char>, ResponseView>,
    url: Seq<char>,
    reply: ResponseView,
    first: Seq<char>,
    last: Seq<char>,
    total: Seq<char>,
    from: nat,
    to: nat,
    length: nat,
    name: Seq<char>,
)
    requires
        reply.status == 206,
        reply.headers.dom().contains("content-range"@),
        reply.headers["content-range"@].len() > 0,
        reply.headers["content-range"@][0] == encode_utf8(
            "bytes "@ + first + seq!['-'] + last + seq!['/'] + total,
        ),
        parsed_u64(first) == Some(from),
        parsed_u64(last) == Some(to),
        parsed_u64(total) == Some(length),
    ensures
        from == 0 && to + 1 == length ==> ({
            let answer = answer_to(Ok::<_, HeaderError>(common), cache, url, reply);
            &&& answer is Ok
            &&& answer->Ok_0.status == 200
            &&& answer->Ok_0.body == reply.body
            &&& values(answer->Ok_0.headers, name) == if name == "content-length"@ {
                values(common, name).push(encode_utf8(digits(reply.body.len())))
            } else if name == "cache-control"@ {
                values(common, name).push(encode_utf8("public, max-age=31536000, immutable"@))
            } else if name == "content-range"@ || name == "pragma"@ {
                values(common, name)
            } else {
                values(common, name) + values(reply.headers, name)
            }
        }),
        from != 0 || to + 1 != length ==> ({
            let answer = answer_to(Ok::<_, HeaderError>(common), cache, url, reply);
            &&& answer is Ok
            &&& answer->Ok_0.status == 206
            &&& answer->Ok_0.body == reply.body
            &&& values(answer->Ok_0.headers, name) == if name == "content-length"@ {
                values(common, name).push(encode_utf8(digits(reply.body.len())))
            } else if name == "cache-control"@ {
                values(common, name).push(encode_utf8("no-store, no-cache, must-revalidate"@))
            } else if name == "pragma"@ {
                values(common, name).push(encode_utf8("no-cache"@))
            } else {
                values(common, name) + values(reply.headers, name)
            }
        }),
{
    lemma_range_value(first, last, total, from, to, length);
    assert(has_whole_range(reply.headers) <==> from == 0 && to + 1 == length);
    lemma_range_answer(common, cache, url, reply, name);
}

/// A reply of status 206 is answered by its first range. If that is everything,
/// it becomes an ordinary response, without range and free to be cached. If it
/// is not, it stays a part with its range, which must not be cached. All other
/// fields pass, whatever their names, and the body is that of the reply.
pub proof fn law_range_decides(
    common: Fields,
    cache: Map<Seq<char>, ResponseView>,
    url: Seq<char>,
    reply: ResponseView,
    first: u64,
    last: u64,
    total: u64,
    name: Seq<char>,
)
    requires
        reply.status == 206,
        reply.headers.dom().contains("content-range"@),
        reply.headers["content-range"@].len() > 0,
        reply.headers["content-range"@][0] == encode_utf8(
            "bytes "@ + digits(first as nat) + seq!['-'] + digits(last as nat) + seq!['/']
                + digits(total as nat),
        ),
    ensures
        first == 0 && last + 1 == total ==> ({
            let answer = answer_to(Ok::<_, HeaderError>(common), cache, url, reply);
            &&& answer is Ok
            &&& answer->Ok_0.status == 200
            &&& answer->Ok_0.body == reply.body
            &&& values(answer->Ok_0.headers, name) == if name == "content-length"@ {
                values(common, name).push(encode_utf8(digits(reply.body.len())))
            } else if name == "cache-control"@ {
                values(common, name).push(encode_utf8("public, max-age=31536000, immutable"@))
            } else if name == "content-range"@ || name == "pragma"@ {
                values(common, name)
            } else {
                values(common, name) + values(reply.headers, name)
            }
        }),
        first != 0 || last + 1 != total ==> ({
            let answer = answer_to(Ok::<_, HeaderError>(common), cache, url, reply);
            &&& answer is Ok
            &&& answer->Ok_0.status == 206
            &&& answer->Ok_0.body == reply.body
            &&& values(answer->Ok_0.headers, name) == if name == "content-length"@ {
                values(common, name).push(encode_utf8(digits(reply.body.len())))
            } else if name == "cache-control"@ {
                values(common, name).push(encode_utf8("no-store, no-cache, must-revalidate"@))
            } else if name == "pragma"@ {
                values(common, name).push(encode_utf8("no-cache"@))
            } else {
                values(common, name) + values(reply.headers, name)
            }
        }),
{
    law_decimal_round_trip(first);
    law_decimal_round_trip(last);
    law_decimal_round_trip(total);
    law_range_decides_however_written(
        common,
        cache,
        url,
        reply,
        digits(first as nat),
        digits(last as nat),
        digits(total as nat),
        first as nat,
        last as nat,
        total as nat,
        name,
    );
}

/// A reply of status 206 without a range that can be read is a part, which must
/// not be cached.
pub proof fn law_unreadable_range_is_a_part(
    common: Fields,
    cache: Map<Seq<char>, ResponseView>,
    url: Seq<char>,
    reply: ResponseView,
    name: Seq<char>,
)
    requires
        reply.status == 206,
        reply.headers.dom().contains("content-range"@) && reply.headers["content-range"@].len() > 0
            ==> !is_visible(reply.headers["content-range"@][0]) || content_range(
            ascii_text(reply.headers["content-range"@][0]),
        ) is None,
    ensures
        ({
            let answer = answer_to(Ok::<_, HeaderError>(common), cache, url, reply);
            &&& answer is Ok
            &&& answer->Ok_0.status == 206
            &&& answer->Ok_0.body == reply.body
            &&& values(answer->Ok_0.headers, name) == if name == "content-length"@ {
                values(common, name).push(encode_utf8(digits(reply.body.len())))
            } else if name == "cache-control"@ {
                values(common, name).push(encode_utf8("no-store, no-cache, must-revalidate"@))
            } else if name == "pragma"@ {
                values(common, name).push(encode_utf8("no-cache"@))
            } else {
                values(common, name) + values(reply.headers, name)
            }
        }),
{
    assert(!has_whole_range(reply.headers));
    lemma_range_answer(common, cache, url, reply, name);
}

/// The answer that stands for the whole resource, as far as `name` goes.
spec fn is_whole_answer(
    common: Fields,
    cache: Map<Seq<char>, ResponseView>,
    url: Seq<char>,
    reply: ResponseView,
    name: Seq<char>,
) -> bool {
    let answer = answer_to(Ok::<_, HeaderError>(common), cache, url, reply);
    let now = values(answer->Ok_0.headers, name);
    &&& answer is Ok
    &&& answer->Ok_0.status == 200
    &&& answer->Ok_0.body == reply.body
    &&& now == if name == "content-length"@ {
        values(common, name).push(encode_utf8(digits(reply.body.len())))
    } else if name == "cache-control"@ {
        values(common, name).push(encode_utf8("public, max-age=31536000, immutable"@))
    } else if name == "content-range"@ || name == "pragma"@ {
        values(common, name)
    } else {
        values(common, name) + values(reply.headers, name)
    }
}

/// The answer that stands for a part of a resource, as far as `name` goes.
spec fn is_part_answer(
    common: Fields,
    cache: Map<Seq<char>, ResponseView>,
    url: Seq<char>,
    reply: ResponseView,
    name: Seq<char>,
) -> bool {
    let answer = answer_to(Ok::<_, HeaderError>(common), cache, url, reply);
    let now = values(answer->Ok_0.headers, name);
    &&& answer is Ok
    &&& answer->Ok_0.status == 206
    &&& answer->Ok_0.body == reply.body
    &&& now == if name == "content-length"@ {
        values(common, name).push(encode_utf8(digits(reply.body.len())))
    } else if name == "cache-control"@ {
        values(common, name).push(encode_utf8("no-store, no-cache, must-revalidate"@))
    } else if name == "pragma"@ {
        values(common, name).push(encode_utf8("no-cache"@))
    } else {
        values(common, name) + values(reply.headers, name)
    }
}

proof fn lemma_range_answer(
    common: Fields,
    cache: Map<Seq<char>, ResponseView>,
    url: Seq<char>,
    reply: ResponseView,
    name: Seq<char>,
)
    requires
        reply.status == 206,
    ensures
        has_whole_range(reply.headers) ==> is_whole_answer(common, cache, url, reply, name),
        !has_whole_range(reply.headers) ==> is_part_answer(common, cache, url, reply, name),
{
    lemma_own_fields(common, reply, name);
    lemma_distinct_names();
    let answer = answer_to(Ok::<_, HeaderError>(common), cache, url, reply)->Ok_0;
    let now = values(answer.headers, name);
    let own = values(common, name);
    let both = own + values(reply.headers, name);
    assert(both + Seq::<Seq<u8>>::empty() =~= both);
    assert(own + Seq::<Seq<u8>>::empty() =~= own);
    assert(forall|value: Seq<u8>| #[trigger] own.push(value) =~= own + seq![value]);
}

/// A response with an asset has the common fields, the asset's type, and its
/// policy if it has one; a type or a policy that cannot be sent is a fault.
pub proof fn law_asset_answer(common: Fields, asset: Asset, name: Seq<char>)
    ensures
        ({
            let fields = asset_fields(Ok::<_, HeaderError>(common), asset);
            let sendable = is_value(encode_utf8(asset.mime_type@)) && (
            asset.csp_header matches Some(csp) ==> is_value(encode_utf8(csp@)));
            &&& !sendable ==> fields == Err::<Fields, _>(HeaderError::InvalidValue)
            &&& sendable ==> fields is Ok
            &&& sendable ==> values(fields->Ok_0, name) == if name == "content-type"@ {
                values(common, name).push(encode_utf8(asset.mime_type@))
            } else if name == "content-security-policy"@ && asset.csp_header is Some {
                values(common, name).push(encode_utf8(asset.csp_header->0@))
            } else {
                values(common, name)
            }
        }),
        forall|fault: HeaderError| #[trigger]
            asset_fields(Err::<Fields, _>(fault), asset) == Err::<Fields, _>(fault),
{
    lemma_names();
    reveal_strlit("content-type");
    reveal_strlit("content-security-policy");
    assert("content-type"@.len() == 12);
    assert("content-security-policy"@.len() == 23);
}

/// A failure is answered with status 500, the message as plain text, and the
/// window's origin; there is no other field.
pub proof fn law_failures_are_answered(origin: Seq<char>, message: Seq<char>, name: Seq<char>)
    ensures
        ({
            let response = error_view(origin, message);
            &&& response.status == 500
            &&& response.body == encode_utf8(message)
            &&& name == "content-type"@ ==> values(response.headers, name) == seq![
                encode_utf8("text/plain"@),
            ]
            &&& name == "access-control-allow-origin"@ ==> values(response.headers, name) == seq![
                encode_utf8(origin),
            ]
            &&& response.headers.dom().contains(name) <==> name == "content-type"@ || name
                == "access-control-allow-origin"@
        }),
{
    reveal_strlit("access-control-allow-origin");
    reveal_strlit("content-type");
    assert("access-control-allow-origin"@.len() == 27);
    assert("content-type"@.len() == 12);
    assert(values(error_view(origin, message).headers, "content-type"@) =~= seq![
        encode_utf8("text/plain"@),
    ]);
    assert(values(error_view(origin, message).headers, "access-control-allow-origin"@) =~= seq![
        encode_utf8(origin),
    ]);
}

/// The message of a failure names the URL and the error, and after them the
/// status code, if there is one; on iOS, without one, it ends with a hint.
pub proof fn law_failure_message(url: Seq<char>, error: Seq<char>, code: u16, ios: bool)
    ensures
        ({
            let start = "Failed to request "@ + url + ": "@ + error;
            &&& failure_message(url, error, None, false) == start
            &&& failure_message(url, error, Some(code), ios) == start + "status code: "@ + digits(
                code as nat,
            )
            &&& failure_message(url, error, None, true) == start
                + ", did you grant local network permissions? That is required to reach the development server. Please grant the permission via the prompt or in `Settings > Privacy & Security > Local Network` and restart the app. See https://support.apple.com/en-us/102229 for more information."@
        }),
{
    let start = "Failed to request "@ + url + ": "@ + error;
    assert(start + Seq::<char>::empty() =~= start);
    assert(start + ("status code: "@ + digits(code as nat)) =~= start + "status code: "@ + digits(
        code as nat,
    ));
}

} // verus!
