//! What holds of the protocol as a whole.
use vstd::prelude::*;
use vstd::string::*;
use vstd::utf8::{
    char_u32_cast, encode_scalar, encode_utf8, encode_utf8_decode_utf8, encode_utf8_valid_utf8,
    last_continuation_byte, leading_byte_width_1, leading_byte_width_2, leading_byte_width_3,
    leading_byte_width_4, second_last_continuation_byte, third_last_continuation_byte,
};
use crate::builder::{appended_all, joined, Forwarding, HeaderError};
use crate::fields::{no_fields, values, Fields};
use crate::percent::{decoded_text, percent_decoded};
use crate::protocol::{
    answer_to, asset_fields, cache_after, common_fields, error_view, forwarding_of,
    has_whole_range, lemma_names, replays, requested_path, upstream_url, with_own,
    turn_of, without_last_slash, Answer, Asset, RequestView, Turn, NOT_MODIFIED, OK,
    PARTIAL_CONTENT,
};
use crate::response::ResponseView;
use crate::text::{
    digits, first_of, lemma_first_of, lemma_first_of_unique, trim_end, trim_start,
};

verus! {

/// A response that the development server gave in full is what the web view
/// gets again when the server then says that nothing has changed.
pub proof fn law_unchanged_is_replayed(
    common: Fields,
    cache: Map<Seq<char>, ResponseView>,
    url: Seq<char>,
    whole: ResponseView,
    unchanged: ResponseView,
)
    requires
        whole.status == OK,
        unchanged.status == NOT_MODIFIED,
    ensures
        answer_to(Ok(common), cache_after(cache, url, whole), url, unchanged) == Ok::<
            _,
            HeaderError,
        >(
            ResponseView {
                status: OK,
                headers: joined(common, whole.headers, Forwarding::Everything),
                body: whole.body,
            },
        ),
{
}

/// What the cache holds after a run of answers, each to a URL.
pub open spec fn cache_after_all(
    cache: Map<Seq<char>, ResponseView>,
    answers: Seq<(Seq<char>, ResponseView)>,
) -> Map<Seq<char>, ResponseView>
    decreases answers.len(),
{
    if answers.len() == 0 {
        cache
    } else {
        cache_after(
            cache_after_all(cache, answers.drop_last()),
            answers.last().0,
            answers.last().1,
        )
    }
}

/// Whether the run holds no answer that is given in full to this URL.
pub open spec fn none_in_full(answers: Seq<(Seq<char>, ResponseView)>, url: Seq<char>) -> bool {
    forall|i: int|
        0 <= i < answers.len() && (#[trigger] answers[i]).0 == url ==> answers[i].1.status != OK
}

proof fn lemma_kept_over_a_run(
    cache: Map<Seq<char>, ResponseView>,
    answers: Seq<(Seq<char>, ResponseView)>,
    url: Seq<char>,
)
    requires
        cache.dom().contains(url),
        none_in_full(answers, url),
    ensures
        cache_after_all(cache, answers).dom().contains(url),
        cache_after_all(cache, answers)[url] == cache[url],
    decreases answers.len(),
{
    if answers.len() > 0 {
        let some = answers.drop_last();
        assert forall|i: int| 0 <= i < some.len() && (#[trigger] some[i]).0 == url implies
            some[i].1.status != OK by {
            assert(some[i] == answers[i]);
        }
        lemma_kept_over_a_run(cache, some, url);
        let (other, reply) = answers[answers.len() - 1];
        law_kept_until_replaced(cache_after_all(cache, some), url, other, reply);
    }
}

/// A response that the development server gave in full is what the web view
/// gets again when the server says that nothing has changed, whatever answers
/// came in between, as long as none of them was given in full to the same URL.
/// Each of its fields is there, after the common ones; nothing of the later
/// answer is, nor does it change the cache. The response counts as replayed,
/// so it is not open to the application's handler.
pub proof fn law_unchanged_is_replayed_later(
    common: Fields,
    cache: Map<Seq<char>, ResponseView>,
    url: Seq<char>,
    whole: ResponseView,
    between: Seq<(Seq<char>, ResponseView)>,
    unchanged: ResponseView,
)
    requires
        whole.status == OK,
        none_in_full(between, url),
        unchanged.status == NOT_MODIFIED,
    ensures
        ({
            let now = cache_after_all(cache_after(cache, url, whole), between);
            let answer = answer_to(Ok::<_, HeaderError>(common), now, url, unchanged);
            &&& replays(now, url, unchanged)
            &&& cache_after(now, url, unchanged) == now
            &&& answer == Ok::<_, HeaderError>(
                ResponseView {
                    status: OK,
                    headers: joined(common, whole.headers, Forwarding::Everything),
                    body: whole.body,
                },
            )
            &&& forall|name: Seq<char>| #[trigger]
                values(answer->Ok_0.headers, name) == values(common, name) + values(
                    whole.headers,
                    name,
                )
        }),
{
    let kept = cache_after(cache, url, whole);
    lemma_kept_over_a_run(kept, between, url);
    let headers = joined(common, whole.headers, Forwarding::Everything);
    assert forall|name: Seq<char>| #[trigger] values(headers, name) == values(common, name)
        + values(whole.headers, name) by {
        assert(values(headers, name) =~= values(common, name) + values(whole.headers, name));
    }
}

/// Every handler begins with an empty cache of its own. What one of them was
/// answered in full, it can replay; another handler passes on that nothing has
/// changed, until it was answered in full itself.
pub proof fn law_handlers_share_no_cache(
    common: Fields,
    url: Seq<char>,
    whole: ResponseView,
    unchanged: ResponseView,
    other: Seq<(Seq<char>, ResponseView)>,
)
    requires
        whole.status == OK,
        unchanged.status == NOT_MODIFIED,
        none_in_full(other, url),
    ensures
        ({
            let empty = Map::<Seq<char>, ResponseView>::empty();
            let first = answer_to(
                Ok::<_, HeaderError>(common),
                cache_after(empty, url, whole),
                url,
                unchanged,
            );
            let second = answer_to(
                Ok::<_, HeaderError>(common),
                cache_after_all(empty, other),
                url,
                unchanged,
            );
            &&& first is Ok && first->Ok_0.status == OK && first->Ok_0.body == whole.body
            &&& second is Ok && second->Ok_0.status == NOT_MODIFIED && second->Ok_0.body
                == unchanged.body
        }),
{
    lemma_never_kept(Map::empty(), other, url);
}

proof fn lemma_never_kept(
    cache: Map<Seq<char>, ResponseView>,
    answers: Seq<(Seq<char>, ResponseView)>,
    url: Seq<char>,
)
    requires
        !cache.dom().contains(url),
        none_in_full(answers, url),
    ensures
        !cache_after_all(cache, answers).dom().contains(url),
    decreases answers.len(),
{
    if answers.len() > 0 {
        let some = answers.drop_last();
        assert forall|i: int| 0 <= i < some.len() && (#[trigger] some[i]).0 == url implies
            some[i].1.status != OK by {
            assert(some[i] == answers[i]);
        }
        lemma_never_kept(cache, some, url);
        assert(answers[answers.len() - 1] == answers.last());
    }
}

/// What an application's handler makes of a request and its response.
pub type Change = spec_fn(RequestView, ResponseView) -> ResponseView;

/// What the handler is called with, and what answers the request in the end.
pub open spec fn turn_run(turn: Turn, request: RequestView, change: Change) -> (
    Seq<(RequestView, ResponseView)>,
    ResponseView,
) {
    match turn {
        Turn::Handler(response) => (seq![(request, response@)], change(request, response@)),
        Turn::Respond(response) => (Seq::empty(), response@),
    }
}

/// The handler has its turn if and only if there is one and the response is
/// open to it, and it gets the response as it is.
pub proof fn law_turns(answer: Answer, has_handler: bool)
    ensures
        has_handler && answer.open_to_handler ==> turn_of(answer, has_handler) == Turn::Handler(
            answer.response,
        ),
        !has_handler || !answer.open_to_handler ==> turn_of(answer, has_handler) == Turn::Respond(
            answer.response,
        ),
{
}

/// If a response is open to the handler of the application, the handler is
/// called once, with the request and the finished response, and what it leaves
/// is the answer. Otherwise it is not called, and the response is the answer.
pub proof fn law_handler_is_called_once(
    answer: Answer,
    has_handler: bool,
    request: RequestView,
    change: Change,
)
    ensures
        has_handler && answer.open_to_handler ==> turn_run(
            turn_of(answer, has_handler),
            request,
            change,
        ) == (seq![(request, answer.response@)], change(request, answer.response@)),
        !has_handler || !answer.open_to_handler ==> turn_run(
            turn_of(answer, has_handler),
            request,
            change,
        ) == (Seq::<(RequestView, ResponseView)>::empty(), answer.response@),
{
}

/// Without a kept response, the answer that nothing has changed is passed on
/// as it is.
pub proof fn law_unchanged_without_copy(
    common: Fields,
    cache: Map<Seq<char>, ResponseView>,
    url: Seq<char>,
    unchanged: ResponseView,
)
    requires
        unchanged.status == NOT_MODIFIED,
        !cache.dom().contains(url),
    ensures
        answer_to(Ok(common), cache, url, unchanged) is Ok,
        answer_to(Ok::<_, HeaderError>(common), cache, url, unchanged)->Ok_0.status == NOT_MODIFIED,
        answer_to(Ok::<_, HeaderError>(common), cache, url, unchanged)->Ok_0.body == unchanged.body,
{
}

/// A kept response stays until the same URL is answered in full again.
pub proof fn law_kept_until_replaced(
    cache: Map<Seq<char>, ResponseView>,
    url: Seq<char>,
    other: Seq<char>,
    reply: ResponseView,
)
    requires
        cache.dom().contains(url),
        other != url || reply.status != OK,
    ensures
        cache_after(cache, other, reply).dom().contains(url),
        cache_after(cache, other, reply)[url] == cache[url],
{
}

/// Whether every kept response has status 200.
pub open spec fn keeps_whole_only(cache: Map<Seq<char>, ResponseView>) -> bool {
    forall|url: Seq<char>| #[trigger] cache.dom().contains(url) ==> cache[url].status == OK
}

/// Only responses with status 200 are ever kept: no part of a resource, and
/// no answer that nothing has changed.
pub proof fn law_only_whole_responses_are_kept(
    cache: Map<Seq<char>, ResponseView>,
    url: Seq<char>,
    reply: ResponseView,
)
    requires
        keeps_whole_only(cache),
    ensures
        keeps_whole_only(cache_after(cache, url, reply)),
        reply.status != OK ==> cache_after(cache, url, reply) == cache,
{
}

/// The fields that are set on an answer, name by name.
pub(crate) proof fn lemma_own_fields(common: Fields, reply: ResponseView, name: Seq<char>)
    ensures
        ({
            let rule = forwarding_of(reply);
            let passed = if rule.passes(name) {
                values(common, name) + values(reply.headers, name)
            } else {
                values(common, name)
            };
            values(with_own(joined(common, reply.headers, rule), rule, reply.body.len()), name)
                == passed + own_values(rule, reply.body.len(), name)
        }),
{
    lemma_distinct_names();
    let rule = forwarding_of(reply);
    let base = joined(common, reply.headers, rule);
    let passed = if rule.passes(name) {
        values(common, name) + values(reply.headers, name)
    } else {
        values(common, name)
    };
    assert(values(base, name) =~= passed);
    let result = values(with_own(base, rule, reply.body.len()), name);
    assert(result =~= passed + own_values(rule, reply.body.len(), name));
}

/// What the protocol itself puts under a name.
pub open spec fn own_values(rule: Forwarding, length: nat, name: Seq<char>) -> Seq<Seq<u8>> {
    if name == "content-length"@ {
        seq![encode_utf8(digits(length))]
    } else if name == "cache-control"@ {
        match rule {
            Forwarding::WholeRange => seq![encode_utf8("public, max-age=31536000, immutable"@)],
            Forwarding::Part => seq![encode_utf8("no-store, no-cache, must-revalidate"@)],
            _ => Seq::empty(),
        }
    } else if name == "pragma"@ && rule == Forwarding::Part {
        seq![encode_utf8("no-cache"@)]
    } else {
        Seq::empty()
    }
}

pub(crate) proof fn lemma_distinct_names()
    ensures
        "content-length"@ != "cache-control"@,
        "content-length"@ != "pragma"@,
        "cache-control"@ != "pragma"@,
        "content-range"@ != "content-length"@,
        "content-range"@ != "cache-control"@,
        "content-range"@ != "pragma"@,
        "access-control-allow-origin"@ != "content-length"@,
        "access-control-allow-origin"@ != "content-range"@,
        "access-control-allow-origin"@ != "cache-control"@,
        "access-control-allow-origin"@ != "pragma"@,
{
    reveal_strlit("content-length");
    reveal_strlit("cache-control");
    reveal_strlit("pragma");
    reveal_strlit("content-range");
    reveal_strlit("access-control-allow-origin");
    assert("content-length"@.len() == 14);
    assert("cache-control"@[1] == 'a');
    assert("content-range"@[1] == 'o');
    assert("cache-control"@.len() == 13);
    assert("pragma"@.len() == 6);
    assert("content-range"@.len() == 13);
    assert("access-control-allow-origin"@.len() == 27);
}

/// The content length that an answer states is the length of its body,
/// whatever length the development server stated.
pub proof fn law_content_length_is_the_body(
    common: Fields,
    cache: Map<Seq<char>, ResponseView>,
    url: Seq<char>,
    reply: ResponseView,
)
    requires
        !replays(cache, url, reply),
    ensures
        ({
            let answer = answer_to(Ok::<_, HeaderError>(common), cache, url, reply)->Ok_0;
            answer.body == reply.body && values(answer.headers, "content-length"@) == values(
                common,
                "content-length"@,
            ) + seq![encode_utf8(digits(answer.body.len()))]
        }),
{
    lemma_own_fields(common, reply, "content-length"@);
}

/// One range that is the whole resource becomes an ordinary response: status
/// 200, no range, and free to be cached.
pub proof fn law_whole_range_becomes_ordinary(
    common: Fields,
    cache: Map<Seq<char>, ResponseView>,
    url: Seq<char>,
    reply: ResponseView,
)
    requires
        reply.status == PARTIAL_CONTENT,
        has_whole_range(reply.headers),
    ensures
        ({
            let answer = answer_to(Ok::<_, HeaderError>(common), cache, url, reply)->Ok_0;
            &&& answer.status == OK
            &&& answer.body == reply.body
            &&& values(answer.headers, "content-range"@) == values(common, "content-range"@)
            &&& values(answer.headers, "pragma"@) == values(common, "pragma"@)
            &&& values(answer.headers, "cache-control"@) == values(common, "cache-control"@) + seq![
                encode_utf8("public, max-age=31536000, immutable"@),
            ]
        }),
{
    lemma_distinct_names();
    lemma_own_fields(common, reply, "content-range"@);
    lemma_own_fields(common, reply, "pragma"@);
    lemma_own_fields(common, reply, "cache-control"@);
    assert(values(common, "content-range"@) + Seq::<Seq<u8>>::empty() =~= values(
        common,
        "content-range"@,
    ));
    assert(values(common, "pragma"@) + Seq::<Seq<u8>>::empty() =~= values(common, "pragma"@));
}

/// A part of a resource stays one, keeps its range, and must not be cached.
pub proof fn law_part_is_not_cached(
    common: Fields,
    cache: Map<Seq<char>, ResponseView>,
    url: Seq<char>,
    reply: ResponseView,
)
    requires
        reply.status == PARTIAL_CONTENT,
        !has_whole_range(reply.headers),
    ensures
        cache_after(cache, url, reply) == cache,
        ({
            let answer = answer_to(Ok::<_, HeaderError>(common), cache, url, reply)->Ok_0;
            &&& answer.status == PARTIAL_CONTENT
            &&& answer.body == reply.body
            &&& values(answer.headers, "content-range"@) == values(common, "content-range"@)
                + values(reply.headers, "content-range"@)
            &&& values(answer.headers, "cache-control"@) == values(common, "cache-control"@) + seq![
                encode_utf8("no-store, no-cache, must-revalidate"@),
            ]
            &&& values(answer.headers, "pragma"@) == values(common, "pragma"@) + seq![
                encode_utf8("no-cache"@),
            ]
        }),
{
    lemma_distinct_names();
    lemma_own_fields(common, reply, "content-range"@);
    lemma_own_fields(common, reply, "cache-control"@);
    lemma_own_fields(common, reply, "pragma"@);
    let ranges = values(common, "content-range"@) + values(reply.headers, "content-range"@);
    assert(ranges + Seq::<Seq<u8>>::empty() =~= ranges);
}

/// Fields that are passed on reach the web view as the development server
/// sent them, after the common ones. Of an ordinary answer these are all but
/// its length, and of a part of a resource all but its length and its caching
/// fields.
pub proof fn law_other_fields_pass(
    common: Fields,
    cache: Map<Seq<char>, ResponseView>,
    url: Seq<char>,
    reply: ResponseView,
    name: Seq<char>,
)
    requires
        !replays(cache, url, reply),
        forwarding_of(reply).passes(name),
    ensures
        values(
            answer_to(Ok::<_, HeaderError>(common), cache, url, reply)->Ok_0.headers,
            name,
        ) == values(common, name) + values(reply.headers, name),
{
    lemma_own_fields(common, reply, name);
    let all = values(common, name) + values(reply.headers, name);
    assert(all + Seq::<Seq<u8>>::empty() =~= all);
}

/// Every answer of the development server, fresh or kept, names the window's
/// origin as one that may read it: after the origins of the configuration,
/// and before those that the server names. So it comes first when none is
/// configured.
pub proof fn law_origin_may_read(
    configured: Seq<(Seq<char>, Seq<char>)>,
    origin: Seq<char>,
    cache: Map<Seq<char>, ResponseView>,
    url: Seq<char>,
    reply: ResponseView,
)
    requires
        common_fields(configured, origin) is Ok,
    ensures
        ({
            let name = "access-control-allow-origin"@;
            let answer = answer_to(common_fields(configured, origin), cache, url, reply)->Ok_0;
            let sent = if replays(cache, url, reply) {
                cache[url].headers
            } else {
                reply.headers
            };
            &&& values(answer.headers, name) == configured_values(configured, name) + seq![
                encode_utf8(origin),
            ] + values(sent, name)
            &&& configured.len() == 0 ==> values(answer.headers, name)[0] == encode_utf8(origin)
        }),
{
    lemma_names();
    lemma_distinct_names();
    let name = "access-control-allow-origin"@;
    let common = common_fields(configured, origin)->Ok_0;
    let own = values(common, name);
    assert(own =~= configured_values(configured, name) + seq![encode_utf8(origin)]);
    let answer = answer_to(common_fields(configured, origin), cache, url, reply)->Ok_0;
    if replays(cache, url, reply) {
        assert(values(answer.headers, name) =~= own + values(cache[url].headers, name));
    } else {
        law_other_fields_pass(common, cache, url, reply, name);
    }
}

/// The values that the configuration gives to a name.
pub open spec fn configured_values(
    configured: Seq<(Seq<char>, Seq<char>)>,
    name: Seq<char>,
) -> Seq<Seq<u8>> {
    values(appended_all(Ok::<_, HeaderError>(no_fields()), configured)->Ok_0, name)
}

/// An asset is found by the URI without its query and its fragment.
pub proof fn law_query_does_not_choose_the_asset(
    uri: Seq<char>,
    mark: char,
    rest: Seq<char>,
    origin: Seq<char>,
)
    requires
        mark == '?' || mark == '#',
    ensures
        requested_path(uri + seq![mark] + rest, origin, false) == requested_path(
            uri,
            origin,
            false,
        ),
{
    let stops = "?#"@;
    let longer = uri + seq![mark] + rest;
    reveal_strlit("?#");
    assert(stops.contains(mark)) by {
        assert(stops[0] == '?');
        assert(stops[1] == '#');
    }
    lemma_first_of(uri, stops);
    let place = first_of(uri, stops);
    assert forall|i: int| 0 <= i < place implies !stops.contains(#[trigger] longer[i]) by {
        assert(longer[i] == uri[i]);
    }
    if place < uri.len() {
        assert(longer[place] == uri[place]);
    } else {
        assert(longer[place] == mark);
    }
    lemma_first_of_unique(longer, stops, place);
    assert(longer.take(place) =~= uri.take(place));
}

/// The development server is asked for all that follows the origin, query and
/// fragment included.
pub proof fn law_proxied_path_is_kept_whole(origin: Seq<char>, rest: Seq<char>)
    ensures
        requested_path(origin + rest, origin, true) == rest,
{
    let uri = origin + rest;
    assert(origin =~= uri.subrange(0, origin.len() as int));
    assert(uri.skip(origin.len() as int) =~= rest);
}

proof fn lemma_trim_end(text: Seq<char>, c: char)
    ensures
        trim_end(text, c).len() > 0 ==> trim_end(text, c).last() != c,
        trim_end(text.push(c), c) == trim_end(text, c),
    decreases text.len(),
{
    assert(text.push(c).drop_last() =~= text);
    if text.len() > 0 && text.last() == c {
        lemma_trim_end(text.drop_last(), c);
    }
}

proof fn lemma_trim_start(text: Seq<char>, c: char)
    ensures
        trim_start(text, c).len() > 0 ==> trim_start(text, c)[0] != c,
    decreases text.len(),
{
    if text.len() > 0 && text[0] == c {
        lemma_trim_start(text.drop_first(), c);
    }
}

/// Between the development server and the path stands exactly one slash.
pub proof fn law_one_slash_joins(base: Seq<char>, path: Seq<char>)
    ensures
        exists|server: Seq<char>, page: Seq<char>|
            {
                &&& #[trigger] (server + "/"@ + page) == upstream_url(base, path)
                &&& server.len() > 0 ==> server.last() != '/'
                &&& page.len() > 0 ==> page[0] != '/'
            },
{
    let server = trim_end(base, '/');
    let page = trim_start(decoded_text(path), '/');
    lemma_trim_end(base, '/');
    lemma_trim_start(decoded_text(path), '/');
    assert(server + "/"@ + page == upstream_url(base, path));
}

/// Whether the application's URL ends with a slash makes no difference.
pub proof fn law_last_slash_of_the_url_does_not_matter(app_url: Seq<char>, path: Seq<char>)
    ensures
        upstream_url(without_last_slash(app_url), path) == upstream_url(app_url, path),
{
    if app_url.len() > 0 && app_url.last() == '/' {
        lemma_trim_end(app_url.drop_last(), '/');
        assert(app_url.drop_last().push('/') =~= app_url);
    }
}

proof fn lemma_no_escape(bytes: Seq<u8>)
    requires
        forall|i: int| 0 <= i < bytes.len() ==> #[trigger] bytes[i] != 37,
    ensures
        percent_decoded(bytes) == bytes,
    decreases bytes.len(),
{
    if bytes.len() > 0 {
        let rest = bytes.skip(1);
        assert(bytes[0] != 37);
        assert forall|i: int| 0 <= i < rest.len() implies #[trigger] rest[i] != 37 by {
            assert(rest[i] == bytes[i + 1]);
        }
        lemma_no_escape(rest);
        assert(seq![bytes[0]] + rest =~= bytes);
    }
}

proof fn lemma_scalar_bytes(scalar: u32)
    by (bit_vector)
    ensures
        scalar <= 0x7f ==> leading_byte_width_1(scalar) == scalar,
        leading_byte_width_2(scalar) >= 0x80,
        leading_byte_width_3(scalar) >= 0x80,
        leading_byte_width_4(scalar) >= 0x80,
        last_continuation_byte(scalar) >= 0x80,
        second_last_continuation_byte(scalar) >= 0x80,
        third_last_continuation_byte(scalar) >= 0x80,
{
}

proof fn lemma_no_percent_byte(path: Seq<char>)
    requires
        forall|i: int| 0 <= i < path.len() ==> #[trigger] path[i] != '%',
    ensures
        forall|i: int| 0 <= i < encode_utf8(path).len() ==> #[trigger] encode_utf8(path)[i] != 37,
    decreases path.len(),
{
    if path.len() > 0 {
        let rest = path.drop_first();
        assert forall|i: int| 0 <= i < rest.len() implies #[trigger] rest[i] != '%' by {
            assert(rest[i] == path[i + 1]);
        }
        lemma_no_percent_byte(rest);
        let scalar = path[0] as u32;
        lemma_scalar_bytes(scalar);
        assert(path[0] != '%');
        let head = encode_scalar(scalar);
        char_u32_cast(path[0], scalar);
        assert(scalar != 37);
        assert forall|i: int| 0 <= i < head.len() implies #[trigger] head[i] != 37 by {
            if scalar <= 0x7f {
                assert(head[0] == scalar);
            }
        }
        assert(encode_utf8(path) =~= head + encode_utf8(rest));
    }
}

/// A path without a percent sign is asked for as it is written.
pub proof fn law_plain_path_is_unchanged(path: Seq<char>)
    requires
        forall|i: int| 0 <= i < path.len() ==> #[trigger] path[i] != '%',
    ensures
        decoded_text(path) == path,
{
    lemma_no_percent_byte(path);
    lemma_no_escape(encode_utf8(path));
    encode_utf8_valid_utf8(path);
    encode_utf8_decode_utf8(path);
}

/// A response with an asset names the window's origin as one that may read
/// it, after the origins of the configuration.
pub proof fn law_origin_may_read_assets(
    configured: Seq<(Seq<char>, Seq<char>)>,
    origin: Seq<char>,
    asset: Asset,
)
    requires
        asset_fields(common_fields(configured, origin), asset) is Ok,
    ensures
        values(
            asset_fields(common_fields(configured, origin), asset)->Ok_0,
            "access-control-allow-origin"@,
        ) == configured_values(configured, "access-control-allow-origin"@) + seq![
            encode_utf8(origin),
        ],
{
    lemma_names();
    let name = "access-control-allow-origin"@;
    reveal_strlit("access-control-allow-origin");
    reveal_strlit("content-type");
    reveal_strlit("content-security-policy");
    assert(name.len() == 27);
    assert("content-type"@.len() == 12);
    assert("content-security-policy"@.len() == 23);
    let own = values(common_fields(configured, origin)->Ok_0, name);
    assert(own =~= configured_values(configured, name) + seq![encode_utf8(origin)]);
    assert(own == values(asset_fields(common_fields(configured, origin), asset)->Ok_0, name));
}

/// The response to a failure names the window's origin, and no other, as one
/// that may read it.
pub proof fn law_origin_may_read_errors(origin: Seq<char>, message: Seq<char>)
    ensures
        values(error_view(origin, message).headers, "access-control-allow-origin"@) == seq![
            encode_utf8(origin),
        ],
{
    reveal_strlit("access-control-allow-origin");
    reveal_strlit("content-type");
    assert("access-control-allow-origin"@.len() == 27);
    assert("content-type"@.len() == 12);
    assert(values(error_view(origin, message).headers, "access-control-allow-origin"@) =~= seq![
        encode_utf8(origin),
    ]);
}

} // verus!
