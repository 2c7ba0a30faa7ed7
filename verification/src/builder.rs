//! The response under construction: its header fields, or the first fault
//! that was met while they were added.
use vstd::prelude::*;
use vstd::utf8::encode_utf8;
use crate::fields::{
    canonical, empty_header_map, fields_view, header_fields, is_name, is_value, list_fields,
    listed_values, name_text, no_fields, parse_name, parse_value, text_of_name, try_append,
    value_bytes, values, with_value, Fields, NAME_ROOM,
};
use crate::text::same_text;

verus! {

/// Why a header field could not be added to a response.
#[derive(Clone, Copy, Debug, PartialEq, Eq, Structural)]
pub enum HeaderError {
    /// The name is not a header field name.
    InvalidName,
    /// The value holds a control byte.
    InvalidValue,
    /// The header map is full.
    MaxSizeReached,
}

impl HeaderError {
    /// The fault in words.
    pub open spec fn text(self) -> Seq<char> {
        match self {
            HeaderError::InvalidName => "invalid HTTP header name"@,
            HeaderError::InvalidValue => "failed to parse header value"@,
            HeaderError::MaxSizeReached => "max size reached"@,
        }
    }

    /// The fault in words.
    pub fn message(self) -> (text: &'static str)
        ensures
            text@ == self.text(),
    {
        match self {
            HeaderError::InvalidName => "invalid HTTP header name",
            HeaderError::InvalidValue => "failed to parse header value",
            HeaderError::MaxSizeReached => "max size reached",
        }
    }
}

/// The header fields gathered so far, or the first fault.
pub struct ResponseBuilder {
    state: Result<http::HeaderMap, HeaderError>,
}

/// What follows from adding one field: a fault stays, and the name is looked
/// at before the value.
pub open spec fn appended(
    state: Result<Fields, HeaderError>,
    name: Seq<char>,
    value: Seq<u8>,
) -> Result<Fields, HeaderError> {
    match state {
        Err(fault) => Err(fault),
        Ok(fields) => if !is_name(name) {
            Err(HeaderError::InvalidName)
        } else if !is_value(value) {
            Err(HeaderError::InvalidValue)
        } else {
            Ok(with_value(fields, canonical(name), value))
        },
    }
}

/// What follows from adding the fields of a list, one after the other.
pub open spec fn appended_all(
    state: Result<Fields, HeaderError>,
    list: Seq<(Seq<char>, Seq<char>)>,
) -> Result<Fields, HeaderError>
    decreases list.len(),
{
    if list.len() == 0 {
        state
    } else {
        appended(
            appended_all(state, list.drop_last()),
            list.last().0,
            encode_utf8(list.last().1),
        )
    }
}

/// A list of names and values as a list of their views.
pub open spec fn pairs_view(list: Seq<(String, String)>) -> Seq<(Seq<char>, Seq<char>)> {
    list.map_values(|field: (String, String)| (field.0@, field.1@))
}

/// The names of a list of fields, in lower case.
pub open spec fn names_of(list: Seq<(Seq<char>, Seq<char>)>) -> Set<Seq<char>> {
    list.map_values(|field: (Seq<char>, Seq<char>)| canonical(field.0)).to_set()
}

/// Whether so many names may be too many for one header map.
pub open spec fn crowded(names: Set<Seq<char>>) -> bool {
    !names.finite() || names.len() >= NAME_ROOM
}

/// Which fields of an answer are passed on.
#[derive(Clone, Copy, Debug, PartialEq, Eq, Structural)]
pub enum Forwarding {
    /// Every field.
    Everything,
    /// Every field but the content length, which is set anew.
    Plain,
    /// An answer that holds the whole resource in one range: neither its
    /// range nor its caching fields either.
    WholeRange,
    /// A part of a resource: not its caching fields either.
    Part,
}

impl Forwarding {
    /// Whether a field of this name is passed on.
    pub open spec fn passes(self, name: Seq<char>) -> bool {
        match self {
            Forwarding::Everything => true,
            Forwarding::Plain => name != "content-length"@,
            Forwarding::WholeRange => name != "content-length"@ && name != "content-range"@ && name
                != "cache-control"@ && name != "pragma"@,
            Forwarding::Part => name != "content-length"@ && name != "cache-control"@ && name
                != "pragma"@,
        }
    }

    fn passes_name(self, name: &str) -> (passes: bool)
        ensures
            passes == self.passes(name@),
    {
        match self {
            Forwarding::Everything => true,
            Forwarding::Plain => !same_text(name, "content-length"),
            Forwarding::WholeRange => !same_text(name, "content-length") && !same_text(
                name,
                "content-range",
            ) && !same_text(name, "cache-control") && !same_text(name, "pragma"),
            Forwarding::Part => !same_text(name, "content-length") && !same_text(
                name,
                "cache-control",
            ) && !same_text(name, "pragma"),
        }
    }
}

/// `base`, and after its values those that `more` gives to the names that
/// pass.
pub open spec fn joined(
    base: Fields,
    more: Fields,
    rule: Forwarding,
) -> Fields {
    Map::new(
        |name: Seq<char>|
            base.dom().contains(name) || (more.dom().contains(name) && rule.passes(name)),
        |name: Seq<char>|
            if rule.passes(name) {
                values(base, name) + values(more, name)
            } else {
                values(base, name)
            },
    )
}

/// How far a header map has come that had `base` and takes the fields of
/// `list` that pass.
spec fn joining(
    now: Fields,
    base: Fields,
    list: Seq<(Seq<char>, Seq<u8>)>,
    rule: Forwarding,
) -> bool {
    forall|name: Seq<char>|
        #![trigger now.dom().contains(name)]
        #![trigger listed_values(list, name)]
        {
            &&& now.dom().contains(name) <==> base.dom().contains(name) || (rule.passes(name)
                && listed_values(list, name).len() > 0)
            &&& values(now, name) == if rule.passes(name) {
                values(base, name) + listed_values(list, name)
            } else {
                values(base, name)
            }
        }
}

proof fn lemma_joining_step(
    now: Fields,
    next: Fields,
    base: Fields,
    list: Seq<(Seq<char>, Seq<u8>)>,
    field: (Seq<char>, Seq<u8>),
    rule: Forwarding,
)
    requires
        joining(now, base, list, rule),
        next == if rule.passes(field.0) {
            with_value(now, field.0, field.1)
        } else {
            now
        },
    ensures
        joining(next, base, list.push(field), rule),
{
    let longer = list.push(field);
    assert(longer.drop_last() =~= list);
    assert forall|name: Seq<char>|
        #![trigger next.dom().contains(name)]
        #![trigger listed_values(longer, name)]
        {
            &&& next.dom().contains(name) <==> base.dom().contains(name) || (rule.passes(name)
                && listed_values(longer, name).len() > 0)
            &&& values(next, name) == if rule.passes(name) {
                values(base, name) + listed_values(longer, name)
            } else {
                values(base, name)
            }
        } by {
        assert(now.dom().contains(name) <==> base.dom().contains(name) || (rule.passes(name)
            && listed_values(list, name).len() > 0));
        if name == field.0 && rule.passes(name) {
            assert(values(next, name) =~= values(base, name) + listed_values(longer, name));
        }
    }
}

pub(crate) proof fn lemma_crowded(names: Set<Seq<char>>, all: Set<Seq<char>>)
    requires
        names.len() >= NAME_ROOM,
        names.subset_of(all),
    ensures
        crowded(all),
{
    if all.finite() {
        vstd::set_lib::lemma_len_subset(names, all);
    }
}

pub(crate) proof fn lemma_crowded_grows(some: Set<Seq<char>>, all: Set<Seq<char>>)
    requires
        crowded(some),
        some.subset_of(all),
    ensures
        crowded(all),
{
    if all.finite() {
        vstd::set_lib::lemma_len_subset(some, all);
    }
}

impl ResponseBuilder {
    /// The fields that the response will have, or the fault.
    pub closed spec fn fields(&self) -> Result<Fields, HeaderError> {
        match self.state {
            Ok(map) => Ok(header_fields(map)),
            Err(fault) => Err(fault),
        }
    }

    /// A response without header fields.
    pub fn new() -> (builder: ResponseBuilder)
        ensures
            builder.fields() == Ok::<_, HeaderError>(no_fields()),
    {
        ResponseBuilder { state: Ok(empty_header_map()) }
    }

    /// Adds a field. A map that already has `NAME_ROOM` names may be full.
    pub fn header(self, name: &str, value: &[u8]) -> (next: ResponseBuilder)
        ensures
            next.fields() == appended(self.fields(), name@, value@) || (next.fields()
                == Err::<Fields, _>(HeaderError::MaxSizeReached) && self.fields() is Ok
                && self.fields()->Ok_0.dom().len() >= NAME_ROOM),
    {
        let mut map = match self.state {
            Ok(map) => map,
            Err(fault) => return ResponseBuilder { state: Err(fault) },
        };
        let name = match parse_name(name) {
            Some(name) => name,
            None => return ResponseBuilder { state: Err(HeaderError::InvalidName) },
        };
        let value = match parse_value(value) {
            Some(value) => value,
            None => return ResponseBuilder { state: Err(HeaderError::InvalidValue) },
        };
        if try_append(&mut map, &name, &value) {
            ResponseBuilder { state: Ok(map) }
        } else {
            ResponseBuilder { state: Err(HeaderError::MaxSizeReached) }
        }
    }

    /// Adds fields one after the other.
    pub fn header_all(self, list: &Vec<(String, String)>) -> (next: ResponseBuilder)
        ensures
            next.fields() == appended_all(self.fields(), pairs_view(list@)) || (next.fields()
                == Err::<Fields, _>(HeaderError::MaxSizeReached) && self.fields() is Ok && crowded(
                self.fields()->Ok_0.dom().union(names_of(pairs_view(list@))),
            )),
            next.fields() is Ok ==> next.fields()->Ok_0.dom().subset_of(
                self.fields()->Ok_0.dom().union(names_of(pairs_view(list@))),
            ),
    {
        let mut next = self;
        let ghost view = pairs_view(list@);
        let ghost start = self.fields();
        let ghost all = start->Ok_0.dom().union(names_of(view));
        let mut i: usize = 0;
        proof {
            assert(view.take(0) =~= Seq::empty());
        }
        while i < list.len()
            invariant
                i <= list@.len(),
                view == pairs_view(list@),
                all == start->Ok_0.dom().union(names_of(view)),
                next.fields() == appended_all(start, view.take(i as int)) || (next.fields()
                    == Err::<Fields, _>(HeaderError::MaxSizeReached) && start is Ok && crowded(
                    all,
                )),
                next.fields() is Ok ==> start is Ok && next.fields()->Ok_0.dom().subset_of(all),
            decreases list@.len() - i,
        {
            let ghost before = next.fields();
            proof {
                assert(view.take(i as int + 1).drop_last() =~= view.take(i as int));
                assert(view[i as int] == (list@[i as int].0@, list@[i as int].1@));
                lemma_names_prefix(view, i as int);
            }
            next = next.header(list[i].0.as_str(), list[i].1.as_str().as_bytes());
            proof {
                if before is Ok && before->Ok_0.dom().len() >= NAME_ROOM {
                    lemma_crowded(before->Ok_0.dom(), all);
                }
            }
            i = i + 1;
        }
        proof {
            assert(view.take(list@.len() as int) =~= view);
        }
        next
    }

    /// Adds the fields of a header map that pass `rule`.
    pub fn forward(self, from: &http::HeaderMap, rule: Forwarding) -> (next: ResponseBuilder)
        ensures
            match self.fields() {
                Err(fault) => next.fields() == Err::<Fields, _>(fault),
                Ok(base) => {
                    ||| next.fields() == Ok::<_, HeaderError>(
                        joined(base, header_fields(*from), rule),
                    )
                    ||| next.fields() == Err::<Fields, _>(
                        HeaderError::MaxSizeReached,
                    ) && crowded(base.dom().union(header_fields(*from).dom()))
                },
            },
    {
        let mut map = match self.state {
            Ok(map) => map,
            Err(fault) => return ResponseBuilder { state: Err(fault) },
        };
        let list = list_fields(from);
        let ghost base = header_fields(map);
        let ghost more = header_fields(*from);
        let ghost view = fields_view(list@);
        let mut i: usize = 0;
        proof {
            assert(view.take(0) =~= Seq::empty());
        }
        while i < list.len()
            invariant
                i <= list@.len(),
                view == fields_view(list@),
                more == header_fields(*from),
                joining(header_fields(map), base, view.take(i as int), rule),
                forall|name: Seq<char>|
                    #![trigger listed_values(view, name)]
                    #![trigger more.dom().contains(name)]
                    {
                        &&& listed_values(view, name) == values(more, name)
                        &&& more.dom().contains(name) <==> listed_values(view, name).len() > 0
                    },
                self.fields() == Ok::<_, HeaderError>(base),
            decreases list@.len() - i,
        {
            let ghost before = header_fields(map);
            let (name, value) = (&list[i].0, &list[i].1);
            proof {
                assert(view.take(i as int + 1) =~= view.take(i as int).push(view[i as int]));
                assert(view[i as int] == (name_text(*name), value_bytes(*value)));
            }
            if rule.passes_name(text_of_name(name)) {
                if !try_append(&mut map, name, value) {
                    proof {
                        assert forall|name: Seq<char>| before.dom().contains(name) implies
                            base.dom().union(more.dom()).contains(name) by {
                            lemma_listed_len(view, i as int, name);
                        }
                        lemma_crowded(before.dom(), base.dom().union(more.dom()));
                    }
                    return ResponseBuilder { state: Err(HeaderError::MaxSizeReached) };
                }
            }
            proof {
                lemma_joining_step(
                    before,
                    header_fields(map),
                    base,
                    view.take(i as int),
                    view[i as int],
                    rule,
                );
            }
            i = i + 1;
        }
        proof {
            assert(view.take(list@.len() as int) =~= view);
            assert(header_fields(map) =~= joined(base, more, rule)) by {
                assert forall|name: Seq<char>|
                    header_fields(map).dom().contains(name) <==> joined(
                        base,
                        more,
                        rule,
                    ).dom().contains(name) by {
                    let _ = listed_values(view, name);
                }
                assert forall|name: Seq<char>| header_fields(map).dom().contains(name) implies
                    header_fields(map)[name] == joined(base, more, rule)[name] by {
                    let _ = listed_values(view, name);
                    assert(values(header_fields(map), name) == header_fields(map)[name]);
                }
            }
        }
        ResponseBuilder { state: Ok(map) }
    }

    /// The header map of the finished response, or the fault.
    pub fn finish(self) -> (result: Result<http::HeaderMap, HeaderError>)
        ensures
            match result {
                Ok(map) => self.fields() == Ok::<_, HeaderError>(header_fields(map)),
                Err(fault) => self.fields() == Err::<Fields, _>(fault),
            },
    {
        self.state
    }
}

proof fn lemma_names_prefix(list: Seq<(Seq<char>, Seq<char>)>, n: int)
    requires
        0 <= n < list.len(),
    ensures
        names_of(list.take(n)).subset_of(names_of(list)),
        names_of(list).contains(canonical(list[n].0)),
{
    let all = list.map_values(|field: (Seq<char>, Seq<char>)| canonical(field.0));
    let some = list.take(n).map_values(|field: (Seq<char>, Seq<char>)| canonical(field.0));
    assert(all[n] == canonical(list[n].0));
    assert forall|name: Seq<char>| names_of(list.take(n)).contains(name) implies names_of(
        list,
    ).contains(name) by {
        let j = choose|j: int| 0 <= j < some.len() && some[j] == name;
        assert(all[j] == name);
    }
}

proof fn lemma_listed_len(list: Seq<(Seq<char>, Seq<u8>)>, n: int, name: Seq<char>)
    requires
        0 <= n <= list.len(),
    ensures
        listed_values(list.take(n), name).len() <= listed_values(list, name).len(),
    decreases list.len(),
{
    if n < list.len() {
        assert(list.drop_last().take(n) =~= list.take(n));
        lemma_listed_len(list.drop_last(), n, name);
    } else {
        assert(list.take(n) =~= list);
    }
}

} // verus!