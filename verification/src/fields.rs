//! Header fields: what an `http::HeaderMap` holds, and the calls into the
//! `http` crate that read one and fill one.
use vstd::prelude::*;

verus! {

/// `http::HeaderMap`: the header fields of a request or a response.
#[verifier::external_type_specification]
#[verifier::external_body]
#[verifier::reject_recursive_types(T)]
pub struct ExHeaderMap<T>(http::HeaderMap<T>);

/// `http::HeaderName`: the name of a header field.
#[verifier::external_type_specification]
#[verifier::external_body]
pub struct ExHeaderName(http::HeaderName);

/// `http::HeaderValue`: the value of a header field.
#[verifier::external_type_specification]
#[verifier::external_body]
pub struct ExHeaderValue(http::HeaderValue);

/// Header fields: for each field name, in lower case, the values that were
/// given to it, oldest first.
pub type Fields = Map<Seq<char>, Seq<Seq<u8>>>;

/// What a header map holds.
pub uninterp spec fn header_fields(map: http::HeaderMap<http::HeaderValue>) -> Fields;

/// The characters that a field name holds.
pub uninterp spec fn name_text(name: http::HeaderName) -> Seq<char>;

/// The bytes that a field value holds.
pub uninterp spec fn value_bytes(value: http::HeaderValue) -> Seq<u8>;

/// With fewer field names than this a header map always takes one more.
pub const NAME_ROOM: usize = 6554;

/// No field at all.
pub open spec fn no_fields() -> Fields {
    Map::empty()
}

/// The values that `fields` gives to `name`, none if the name is absent.
pub open spec fn values(fields: Fields, name: Seq<char>) -> Seq<Seq<u8>> {
    if fields.dom().contains(name) {
        fields[name]
    } else {
        Seq::empty()
    }
}

/// `fields` with one more value at the end of those of `name`.
pub open spec fn with_value(
    fields: Fields,
    name: Seq<char>,
    value: Seq<u8>,
) -> Fields {
    fields.insert(name, values(fields, name).push(value))
}

/// The values of `name` in a list of fields, in the order of the list.
pub open spec fn listed_values(list: Seq<(Seq<char>, Seq<u8>)>, name: Seq<char>) -> Seq<Seq<u8>>
    decreases list.len(),
{
    if list.len() == 0 {
        Seq::empty()
    } else if list.last().0 == name {
        listed_values(list.drop_last(), name).push(list.last().1)
    } else {
        listed_values(list.drop_last(), name)
    }
}

/// A list of names and values as a list of what they hold.
pub open spec fn fields_view(list: Seq<(http::HeaderName, http::HeaderValue)>) -> Seq<
    (Seq<char>, Seq<u8>),
> {
    list.map_values(
        |field: (http::HeaderName, http::HeaderValue)| (name_text(field.0), value_bytes(field.1)),
    )
}

/// The characters of which a field name may be made.
pub open spec fn is_name_char(c: char) -> bool {
    ||| '0' <= c <= '9'
    ||| 'a' <= c <= 'z'
    ||| 'A' <= c <= 'Z'
    ||| c == '!' || c == '#' || c == '$' || c == '%' || c == '&' || c == '\'' || c == '*'
    ||| c == '+' || c == '-' || c == '.' || c == '^' || c == '_' || c == '`' || c == '|' || c == '~'
}

/// The lower case of an ASCII letter; any other character unchanged.
pub open spec fn lower(c: char) -> char {
    if 'A' <= c <= 'Z' {
        (c as u32 + 32) as char
    } else {
        c
    }
}

/// Whether `name` can be written as the name of a field.
pub open spec fn is_name(name: Seq<char>) -> bool {
    1 <= name.len() <= 65535 && forall|i: int| 0 <= i < name.len() ==> is_name_char(#[trigger] name[i])
}

/// A name as a header map keeps it: in lower case.
pub open spec fn canonical(name: Seq<char>) -> Seq<char> {
    name.map_values(|c: char| lower(c))
}

/// Whether `value` can be the value of a field: no control byte but the tab.
pub open spec fn is_value(value: Seq<u8>) -> bool {
    forall|i: int| 0 <= i < value.len() ==> (#[trigger] value[i] >= 32 && value[i] != 127) || value[i] == 9
}

/// Whether `value` is visible ASCII, spaces and tabs.
pub open spec fn is_visible(value: Seq<u8>) -> bool {
    forall|i: int| 0 <= i < value.len() ==> (32 <= #[trigger] value[i] < 127) || value[i] == 9
}

/// Bytes of ASCII as the characters that they are.
pub open spec fn ascii_text(value: Seq<u8>) -> Seq<char> {
    value.map_values(|byte: u8| byte as char)
}

/// `HeaderMap::new`: a map that holds nothing.
#[verifier::external_body]
pub(crate) fn empty_header_map() -> (made: http::HeaderMap)
    ensures
        header_fields(made) == no_fields(),
{
    http::HeaderMap::new()
}

/// `HeaderMap::clone`: the copy holds what the map holds.
#[verifier::external_body]
pub(crate) fn copy_header_map(map: &http::HeaderMap) -> (copy: http::HeaderMap)
    ensures
        header_fields(copy) == header_fields(*map),
{
    map.clone()
}

/// `HeaderMap::get`: the first value of a field, if the map has the field. The
/// name is looked up in lower case.
#[verifier::external_body]
pub(crate) fn first_value<'a>(map: &'a http::HeaderMap, name: &str) -> (value: Option<
    &'a http::HeaderValue,
>)
    requires
        is_name(name@),
    ensures
        value matches Some(value) ==> values(header_fields(*map), canonical(name@)).len() > 0
            && value_bytes(*value) == values(header_fields(*map), canonical(name@))[0],
        value is None ==> values(header_fields(*map), canonical(name@)).len() == 0,
{
    map.get(name)
}

/// `HeaderMap::iter`: every field of the map once per value. The order of the
/// names is left open; the values of one name come in their order.
#[verifier::external_body]
pub(crate) fn list_fields(map: &http::HeaderMap) -> (list: Vec<
    (http::HeaderName, http::HeaderValue),
>)
    ensures
        forall|name: Seq<char>|
            #![trigger listed_values(fields_view(list@), name)]
            #![trigger header_fields(*map).dom().contains(name)]
            {
                &&& listed_values(fields_view(list@), name) == values(header_fields(*map), name)
                &&& header_fields(*map).dom().contains(name) <==> listed_values(
                    fields_view(list@),
                    name,
                ).len() > 0
            },
{
    map.iter().map(|(name, value)| (name.clone(), value.clone())).collect()
}

/// `HeaderMap::try_append`: one more value at the end of those of the field,
/// or a refusal, which no map with fewer than `NAME_ROOM` names gives.
#[verifier::external_body]
pub(crate) fn try_append(
    map: &mut http::HeaderMap,
    name: &http::HeaderName,
    value: &http::HeaderValue,
) -> (taken: bool)
    ensures
        taken ==> header_fields(*final(map)) == with_value(
            header_fields(*old(map)),
            name_text(*name),
            value_bytes(*value),
        ),
        !taken ==> header_fields(*old(map)).dom().len() >= NAME_ROOM,
{
    map.try_append(name, value.clone()).is_ok()
}

/// `HeaderName::from_bytes`: the name in lower case, if it is a name.
#[verifier::external_body]
pub(crate) fn parse_name(name: &str) -> (parsed: Option<http::HeaderName>)
    ensures
        parsed is Some <==> is_name(name@),
        parsed matches Some(parsed) ==> name_text(parsed) == canonical(name@),
{
    http::HeaderName::from_bytes(name.as_bytes()).ok()
}

/// `HeaderName::as_str`: the characters of the name.
#[verifier::external_body]
pub(crate) fn text_of_name(name: &http::HeaderName) -> (text: &str)
    ensures
        text@ == name_text(*name),
{
    name.as_str()
}

/// `HeaderValue::from_bytes`: a value of these bytes, if they can be one.
#[verifier::external_body]
pub(crate) fn parse_value(value: &[u8]) -> (parsed: Option<http::HeaderValue>)
    ensures
        parsed is Some <==> is_value(value@),
        parsed matches Some(parsed) ==> value_bytes(parsed) == value@,
{
    http::HeaderValue::from_bytes(value).ok()
}

/// `HeaderValue::to_str`: the text of a value that is visible ASCII.
#[verifier::external_body]
pub(crate) fn text_of_value(value: &http::HeaderValue) -> (text: Option<&str>)
    ensures
        text is Some <==> is_visible(value_bytes(*value)),
        text matches Some(text) ==> text@ == ascii_text(value_bytes(*value)),
{
    value.to_str().ok()
}

} // verus!
