//! The `Content-Range` of an answer that holds one range of a resource.
use vstd::prelude::*;
use vstd::string::*;
use crate::text::{
    after_prefix, digits, law_after_prefix, law_decimal_round_trip, law_numbers_are_read,
    law_split_at_first, parse_u64, parsed_u64, split_at_first, split_once, strip_prefix,
};

verus! {

/// First byte, last byte and length of the resource, as
/// `bytes <first>-<last>/<length>` gives them.
pub open spec fn content_range(text: Seq<char>) -> Option<(nat, nat, nat)> {
    match after_prefix(text, "bytes "@) {
        None => None,
        Some(rest) => match split_at_first(rest, '/') {
            None => None,
            Some((range, total)) => match split_at_first(range, '-') {
                None => None,
                Some((first, last)) => match (
                    parsed_u64(first),
                    parsed_u64(last),
                    parsed_u64(total),
                ) {
                    (Some(first), Some(last), Some(total)) => Some((first, last, total)),
                    _ => None,
                },
            },
        },
    }
}

/// Whether the range is the whole resource: it starts at the first byte and
/// ends at the last one.
pub open spec fn is_whole_resource(text: Seq<char>) -> bool {
    match content_range(text) {
        Some((first, last, total)) => first == 0 && last + 1 == total,
        None => false,
    }
}

/// Reads a `Content-Range`.
pub fn parse_content_range(text: &str) -> (range: Option<(u64, u64, u64)>)
    ensures
        match range {
            Some((first, last, total)) => content_range(text@) == Some(
                (first as nat, last as nat, total as nat),
            ),
            None => content_range(text@) is None,
        },
{
    let rest = match strip_prefix(text, "bytes ") {
        Some(rest) => rest,
        None => return None,
    };
    let (range, total) = match split_once(rest.as_str(), '/') {
        Some(sides) => sides,
        None => return None,
    };
    let (first, last) = match split_once(range.as_str(), '-') {
        Some(sides) => sides,
        None => return None,
    };
    match (parse_u64(first.as_str()), parse_u64(last.as_str()), parse_u64(total.as_str())) {
        (Some(first), Some(last), Some(total)) => Some((first, last, total)),
        _ => None,
    }
}

/// Whether a `Content-Range` covers the whole resource. A resource of length
/// zero has no last byte, so no range covers it.
pub fn covers_whole_resource(text: &str) -> (whole: bool)
    ensures
        whole == is_whole_resource(text@),
{
    match parse_content_range(text) {
        Some((first, last, total)) => first == 0 && total > 0 && last == total - 1,
        None => false,
    }
}

/// `bytes <first>-<last>/<total>`.
pub open spec fn range_text(first: nat, last: nat, total: nat) -> Seq<char> {
    "bytes "@ + digits(first) + seq!['-'] + digits(last) + seq!['/'] + digits(total)
}

/// A range is read from its three numbers, however they are written, and is
/// the whole resource exactly where it starts at byte zero and ends at the
/// last byte.
pub proof fn law_range_is_read(
    first: Seq<char>,
    last: Seq<char>,
    total: Seq<char>,
    from: nat,
    to: nat,
    length: nat,
)
    requires
        parsed_u64(first) == Some(from),
        parsed_u64(last) == Some(to),
        parsed_u64(total) == Some(length),
    ensures
        ({
            let text = "bytes "@ + first + seq!['-'] + last + seq!['/'] + total;
            &&& content_range(text) == Some((from, to, length))
            &&& is_whole_resource(text) <==> from == 0 && to + 1 == length
        }),
{
    let text = "bytes "@ + first + seq!['-'] + last + seq!['/'] + total;
    let range = first + seq!['-'] + last;
    let rest = range + seq!['/'] + total;
    law_numbers_are_read(first, first);
    law_numbers_are_read(last, last);
    assert(text =~= "bytes "@ + rest);
    law_after_prefix("bytes "@, rest, text);
    assert(!range.contains('/')) by {
        if range.contains('/') {
            let i = choose|i: int| 0 <= i < range.len() && range[i] == '/';
            if i < first.len() {
                assert(range[i] == first[i]);
            } else if i > first.len() {
                assert(range[i] == last[i - first.len() - 1]);
            }
        }
    }
    law_split_at_first(range, '/', total, rest);
    assert(!first.contains('-'));
    law_split_at_first(first, '-', last, range);
}

/// A range that is written out is read back.
pub proof fn law_range_round_trip(first: u64, last: u64, total: u64)
    ensures
        content_range(range_text(first as nat, last as nat, total as nat)) == Some(
            (first as nat, last as nat, total as nat),
        ),
{
    law_whole_resource(first, last, total);
}

/// The range `bytes <first>-<last>/<total>` is the whole resource if and only
/// if its first byte is byte zero and its last byte is the last of `total`.
pub proof fn law_whole_resource(first: u64, last: u64, total: u64)
    ensures
        ({
            let text = "bytes "@ + digits(first as nat) + seq!['-'] + digits(last as nat)
                + seq!['/'] + digits(total as nat);
            &&& content_range(text) == Some((first as nat, last as nat, total as nat))
            &&& is_whole_resource(text) <==> first == 0 && last + 1 == total
        }),
{
    law_decimal_round_trip(first);
    law_decimal_round_trip(last);
    law_decimal_round_trip(total);
    law_range_is_read(
        digits(first as nat),
        digits(last as nat),
        digits(total as nat),
        first as nat,
        last as nat,
        total as nat,
    );
}

/// Only a text of the form `bytes <first>-<last>/<total>` is read as a range.
pub proof fn law_only_ranges_are_read(text: Seq<char>)
    ensures
        content_range(text) matches Some((from, to, length)) ==> exists|
            first: Seq<char>,
            last: Seq<char>,
            total: Seq<char>,
        |
            text == #[trigger] ("bytes "@ + first + seq!['-'] + last + seq!['/'] + total)
                && parsed_u64(first) == Some(from) && parsed_u64(last) == Some(to) && parsed_u64(
                total,
            ) == Some(length),
        content_range(text) is None ==> !is_whole_resource(text),
{
    if content_range(text) is Some {
        let rest = after_prefix(text, "bytes "@)->0;
        law_after_prefix("bytes "@, rest, text);
        let (range, total) = split_at_first(rest, '/')->0;
        law_split_at_first(range, '/', total, rest);
        let (first, last) = split_at_first(range, '-')->0;
        law_split_at_first(first, '-', last, range);
        assert(text =~= "bytes "@ + first + seq!['-'] + last + seq!['/'] + total);
    }
}

} // verus!
