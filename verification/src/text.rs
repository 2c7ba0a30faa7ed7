//! Text as sequences of characters.
use vstd::prelude::*;
use vstd::string::*;

verus! {

/// Whether two texts are the same.
pub fn same_text(left: &str, right: &str) -> (same: bool)
    ensures
        same == (left@ == right@),
{
    left.to_owned() == right.to_owned()
}

/// The characters of a text.
pub fn chars_of(text: &str) -> (chars: Vec<char>)
    ensures
        chars@ == text@,
{
    let mut chars: Vec<char> = Vec::new();
    for c in iter: text.chars()
        invariant
            iter.seq() == text@,
            chars@ == text@.take(iter.index()),
    {
        chars.push(c);
    }
    chars
}

/// The place of the first character of `text` that is among `stops`, or the
/// length of `text` if none is.
pub open spec fn first_of(text: Seq<char>, stops: Seq<char>) -> int
    decreases text.len(),
{
    if text.len() == 0 || stops.contains(text[0]) {
        0
    } else {
        1 + first_of(text.drop_first(), stops)
    }
}

/// `text` without the run of `c` at its start.
pub open spec fn trim_start(text: Seq<char>, c: char) -> Seq<char>
    decreases text.len(),
{
    if text.len() > 0 && text[0] == c {
        trim_start(text.drop_first(), c)
    } else {
        text
    }
}

/// `text` without the run of `c` at its end.
pub open spec fn trim_end(text: Seq<char>, c: char) -> Seq<char>
    decreases text.len(),
{
    if text.len() > 0 && text.last() == c {
        trim_end(text.drop_last(), c)
    } else {
        text
    }
}

/// What follows `prefix` in `text`, if `text` starts with it.
pub open spec fn after_prefix(text: Seq<char>, prefix: Seq<char>) -> Option<Seq<char>> {
    if prefix.is_prefix_of(text) {
        Some(text.skip(prefix.len() as int))
    } else {
        None
    }
}

/// The two sides of the first `c` in `text`, if there is one.
pub open spec fn split_at_first(text: Seq<char>, c: char) -> Option<(Seq<char>, Seq<char>)> {
    let place = first_of(text, seq![c]);
    if place < text.len() {
        Some((text.take(place), text.skip(place + 1)))
    } else {
        None
    }
}

/// The first stop in a text is a stop, and nothing before it is.
pub proof fn lemma_first_of(text: Seq<char>, stops: Seq<char>)
    ensures
        0 <= first_of(text, stops) <= text.len(),
        forall|i: int| 0 <= i < first_of(text, stops) ==> !stops.contains(#[trigger] text[i]),
        first_of(text, stops) < text.len() ==> stops.contains(text[first_of(text, stops)]),
    decreases text.len(),
{
    if text.len() > 0 && !stops.contains(text[0]) {
        let rest = text.drop_first();
        lemma_first_of(rest, stops);
        assert forall|i: int| 0 <= i < first_of(text, stops) implies !stops.contains(
            #[trigger] text[i],
        ) by {
            if i > 0 {
                assert(text[i] == rest[i - 1]);
            }
        }
        if first_of(text, stops) < text.len() {
            assert(text[first_of(text, stops)] == rest[first_of(rest, stops)]);
        }
    }
}

/// A stop that no stop comes before is the first.
pub proof fn lemma_first_of_unique(text: Seq<char>, stops: Seq<char>, place: int)
    requires
        0 <= place <= text.len(),
        forall|i: int| 0 <= i < place ==> !stops.contains(#[trigger] text[i]),
        place < text.len() ==> stops.contains(text[place]),
    ensures
        first_of(text, stops) == place,
{
    lemma_first_of(text, stops);
    let found = first_of(text, stops);
    if found < place {
        assert(!stops.contains(text[found]));
    } else if place < found {
        assert(!stops.contains(text[place]));
    }
}

/// What is taken off the start of a text is a run of `c`, all of it and
/// nothing else.
pub proof fn law_trim_start(text: Seq<char>, c: char)
    ensures
        ({
            let rest = trim_start(text, c);
            &&& rest.len() <= text.len()
            &&& text.skip(text.len() - rest.len()) == rest
            &&& forall|i: int| 0 <= i < text.len() - rest.len() ==> #[trigger] text[i] == c
            &&& rest.len() > 0 ==> rest[0] != c
        }),
    decreases text.len(),
{
    if text.len() > 0 && text[0] == c {
        let short = text.drop_first();
        law_trim_start(short, c);
        let rest = trim_start(text, c);
        assert(text.skip(text.len() - rest.len()) =~= short.skip(short.len() - rest.len()));
        assert forall|i: int| 0 <= i < text.len() - rest.len() implies #[trigger] text[i] == c by {
            if i > 0 {
                assert(text[i] == short[i - 1]);
            }
        }
    } else {
        assert(text.skip(0) =~= text);
    }
}

/// What is taken off the end of a text is a run of `c`, all of it and nothing
/// else.
pub proof fn law_trim_end(text: Seq<char>, c: char)
    ensures
        ({
            let rest = trim_end(text, c);
            &&& rest.len() <= text.len()
            &&& text.take(rest.len() as int) == rest
            &&& forall|i: int| rest.len() <= i < text.len() ==> #[trigger] text[i] == c
            &&& rest.len() > 0 ==> rest.last() != c
        }),
    decreases text.len(),
{
    if text.len() > 0 && text.last() == c {
        let short = text.drop_last();
        law_trim_end(short, c);
        let rest = trim_end(text, c);
        assert(text.take(rest.len() as int) =~= short.take(rest.len() as int));
        assert forall|i: int| rest.len() <= i < text.len() implies #[trigger] text[i] == c by {
            if i < short.len() {
                assert(text[i] == short[i]);
            }
        }
    } else {
        assert(text.take(text.len() as int) =~= text);
    }
}

/// A prefix is taken off exactly where the text is made of it and a rest, and
/// the rest is what stays.
pub proof fn law_after_prefix(prefix: Seq<char>, rest: Seq<char>, text: Seq<char>)
    ensures
        after_prefix(prefix + rest, prefix) == Some(rest),
        after_prefix(text, prefix) matches Some(found) ==> text == prefix + found,
{
    let whole = prefix + rest;
    assert(prefix =~= whole.subrange(0, prefix.len() as int));
    assert(whole.skip(prefix.len() as int) =~= rest);
    if let Some(found) = after_prefix(text, prefix) {
        assert(prefix =~= text.subrange(0, prefix.len() as int));
        assert(text =~= prefix + found);
    }
}

/// A text is split at its first `c`, and at none if it has none.
pub proof fn law_split_at_first(left: Seq<char>, c: char, right: Seq<char>, text: Seq<char>)
    ensures
        !left.contains(c) ==> split_at_first(left + seq![c] + right, c) == Some((left, right)),
        !text.contains(c) ==> split_at_first(text, c) is None,
        split_at_first(text, c) matches Some((front, back)) ==> text == front + seq![c] + back
            && !front.contains(c),
{
    let stops = seq![c];
    assert(stops[0] == c);
    assert forall|d: char| stops.contains(d) <==> d == c by {
        if d == c {
            assert(stops[0] == d);
        }
    }
    let whole = left + seq![c] + right;
    if !left.contains(c) {
        assert forall|i: int| 0 <= i < left.len() implies !stops.contains(#[trigger] whole[i]) by {
            assert(whole[i] == left[i]);
        }
        assert(whole[left.len() as int] == c);
        lemma_first_of_unique(whole, stops, left.len() as int);
        assert(whole.take(left.len() as int) =~= left);
        assert(whole.skip(left.len() as int + 1) =~= right);
    }
    lemma_first_of(text, stops);
    if let Some((front, back)) = split_at_first(text, c) {
        let place = first_of(text, stops);
        assert(text =~= front + seq![c] + back);
        assert forall|i: int| 0 <= i < front.len() implies front[i] != c by {
            assert(!stops.contains(text[i]));
        }
    }
}

/// The part of `text` between two places.
fn part(text: &str, from: usize, to: usize) -> (part: String)
    requires
        from <= to <= text@.len(),
    ensures
        part@ == text@.subrange(from as int, to as int),
{
    text.substring_char(from, to).to_owned()
}

/// Whether `c` is among the characters of `set`.
fn among(set: &Vec<char>, c: char) -> (found: bool)
    ensures
        found == set@.contains(c),
{
    let mut i: usize = 0;
    while i < set.len()
        invariant
            i <= set@.len(),
            forall|j: int| 0 <= j < i ==> set@[j] != c,
        decreases set@.len() - i,
    {
        if set[i] == c {
            return true;
        }
        i = i + 1;
    }
    false
}

fn find_first_of(text: &Vec<char>, stops: &Vec<char>) -> (place: usize)
    ensures
        place == first_of(text@, stops@),
        place <= text@.len(),
{
    let mut i: usize = 0;
    while i < text.len() && !among(stops, text[i])
        invariant
            i <= text@.len(),
            forall|j: int| 0 <= j < i ==> !stops@.contains(#[trigger] text@[j]),
        decreases text@.len() - i,
    {
        i = i + 1;
    }
    proof {
        lemma_first_of_unique(text@, stops@, i as int);
    }
    i
}

/// The text before the first of the characters `stops`, all of it if none
/// occurs.
pub fn before_first_of(text: &str, stops: &str) -> (front: String)
    ensures
        front@ == text@.take(first_of(text@, stops@)),
{
    let chars = chars_of(text);
    let place = find_first_of(&chars, &chars_of(stops));
    proof {
        assert(text@.take(place as int) =~= text@.subrange(0, place as int));
    }
    part(text, 0, place)
}

/// Splits a text at the first `c`.
pub fn split_once(text: &str, c: char) -> (sides: Option<(String, String)>)
    ensures
        match sides {
            Some((left, right)) => split_at_first(text@, c) == Some((left@, right@)),
            None => split_at_first(text@, c) is None,
        },
{
    let chars = chars_of(text);
    let stops: Vec<char> = vec![c];
    proof {
        assert(stops@ =~= seq![c]);
    }
    let place = find_first_of(&chars, &stops);
    if place < chars.len() {
        proof {
            assert(text@.take(place as int) =~= text@.subrange(0, place as int));
            assert(text@.skip(place + 1) =~= text@.subrange(place + 1, text@.len() as int));
        }
        Some((part(text, 0, place), part(text, place + 1, chars.len())))
    } else {
        None
    }
}

/// Takes `prefix` off the start of a text.
pub fn strip_prefix(text: &str, prefix: &str) -> (rest: Option<String>)
    ensures
        match rest {
            Some(rest) => after_prefix(text@, prefix@) == Some(rest@),
            None => after_prefix(text@, prefix@) is None,
        },
{
    let chars = chars_of(text);
    let wanted = chars_of(prefix);
    if chars.len() < wanted.len() {
        return None;
    }
    let mut i: usize = 0;
    while i < wanted.len()
        invariant
            i <= wanted@.len() <= chars@.len(),
            chars@ == text@,
            wanted@ == prefix@,
            forall|j: int| 0 <= j < i ==> chars@[j] == wanted@[j],
        decreases wanted@.len() - i,
    {
        if chars[i] != wanted[i] {
            proof {
                assert(!(wanted@ =~= chars@.subrange(0, wanted@.len() as int))) by {
                    assert(wanted@[i as int] != chars@.subrange(0, wanted@.len() as int)[i as int]);
                }
            }
            return None;
        }
        i = i + 1;
    }
    proof {
        assert(wanted@ =~= chars@.subrange(0, wanted@.len() as int));
        assert(text@.skip(wanted@.len() as int) =~= text@.subrange(
            wanted@.len() as int,
            text@.len() as int,
        ));
    }
    Some(part(text, wanted.len(), chars.len()))
}

/// Whether a text starts with `prefix`.
pub fn starts_with(text: &str, prefix: &str) -> (starts: bool)
    ensures
        starts == prefix@.is_prefix_of(text@),
{
    strip_prefix(text, prefix).is_some()
}

/// Takes the run of `c` off the start of a text.
pub fn trim_start_matches(text: &str, c: char) -> (rest: String)
    ensures
        rest@ == trim_start(text@, c),
{
    let chars = chars_of(text);
    let mut i: usize = 0;
    proof {
        assert(text@.skip(0) =~= text@);
    }
    while i < chars.len() && chars[i] == c
        invariant
            i <= chars@.len(),
            chars@ == text@,
            trim_start(text@, c) == trim_start(text@.skip(i as int), c),
        decreases chars@.len() - i,
    {
        proof {
            assert(text@.skip(i as int).drop_first() =~= text@.skip(i + 1));
        }
        i = i + 1;
    }
    proof {
        assert(text@.skip(i as int) =~= text@.subrange(i as int, text@.len() as int));
    }
    part(text, i, chars.len())
}

/// Takes the run of `c` off the end of a text.
pub fn trim_end_matches(text: &str, c: char) -> (rest: String)
    ensures
        rest@ == trim_end(text@, c),
{
    let chars = chars_of(text);
    let mut n: usize = chars.len();
    proof {
        assert(text@.take(n as int) =~= text@);
    }
    while n > 0 && chars[n - 1] == c
        invariant
            n <= chars@.len(),
            chars@ == text@,
            trim_end(text@, c) == trim_end(text@.take(n as int), c),
        decreases n,
    {
        proof {
            assert(text@.take(n as int).drop_last() =~= text@.take(n - 1));
        }
        n = n - 1;
    }
    proof {
        assert(text@.take(n as int) =~= text@.subrange(0, n as int));
    }
    part(text, 0, n)
}

/// The character of a decimal digit.
pub open spec fn digit(d: nat) -> char {
    (48 + d) as char
}

/// A number in decimal digits, without leading zeros.
pub open spec fn digits(n: nat) -> Seq<char>
    decreases n,
{
    if n < 10 {
        seq![digit(n)]
    } else {
        digits(n / 10).push(digit(n % 10))
    }
}

/// Whether every character of `text` is a decimal digit.
pub open spec fn all_digits(text: Seq<char>) -> bool {
    forall|i: int| 0 <= i < text.len() ==> '0' <= #[trigger] text[i] <= '9'
}

/// The number that a run of decimal digits stands for.
pub open spec fn number(text: Seq<char>) -> nat
    decreases text.len(),
{
    if text.len() == 0 {
        0
    } else {
        number(text.drop_last()) * 10 + (text.last() as int - 48) as nat
    }
}

/// A number of at most 64 bits as it is read: a plus sign or none, then one
/// or more decimal digits and nothing else.
pub open spec fn parsed_u64(text: Seq<char>) -> Option<nat> {
    let run = if text.len() > 0 && text[0] == '+' {
        text.drop_first()
    } else {
        text
    };
    if run.len() > 0 && all_digits(run) && number(run) <= u64::MAX {
        Some(number(run))
    } else {
        None
    }
}

pub proof fn lemma_digits(n: nat)
    ensures
        digits(n).len() > 0,
        all_digits(digits(n)),
        number(digits(n)) == n,
    decreases n,
{
    if n < 10 {
        assert(digits(n).drop_last() =~= Seq::empty());
        assert(digits(n).last() as int == 48 + n);
        assert(number(Seq::<char>::empty()) == 0);
    } else {
        lemma_digits(n / 10);
        let run = digits(n);
        assert(run.drop_last() =~= digits(n / 10));
        assert(run.last() as int == 48 + n % 10);
        assert forall|i: int| 0 <= i < run.len() implies '0' <= #[trigger] run[i] <= '9' by {
            if i < run.len() - 1 {
                assert(run[i] == digits(n / 10)[i]);
            }
        }
    }
}

/// A number that was written in decimal is read back.
pub proof fn law_decimal_round_trip(n: u64)
    ensures
        parsed_u64(digits(n as nat)) == Some(n as nat),
{
    lemma_digits(n as nat);
    assert('0' <= digits(n as nat)[0] <= '9');
}

/// The digits of a run count ten times as much for every place to the left.
pub proof fn law_number_is_positional(text: Seq<char>, d: char)
    requires
        '0' <= d <= '9',
    ensures
        number(Seq::empty()) == 0,
        number(text.push(d)) == 10 * number(text) + (d as int - '0' as int),
{
    assert(text.push(d).drop_last() =~= text);
}

/// A number is written in decimal digits that stand for it, and with no zero
/// in front.
pub proof fn law_decimal_is_canonical(n: nat)
    ensures
        digits(n).len() > 0,
        forall|i: int| 0 <= i < digits(n).len() ==> '0' <= #[trigger] digits(n)[i] <= '9',
        number(digits(n)) == n,
        n > 0 ==> digits(n)[0] != '0',
        n == 0 ==> digits(n) == seq!['0'],
    decreases n,
{
    lemma_digits(n);
    if n >= 10 {
        law_decimal_is_canonical(n / 10);
        assert(digits(n)[0] == digits(n / 10)[0]);
    } else {
        assert(digits(n)[0] as int == 48 + n);
    }
}

/// A run of digits is read as the number that it stands for, with or without a
/// plus sign, if that fits in 64 bits. Nothing else is read.
pub proof fn law_numbers_are_read(run: Seq<char>, text: Seq<char>)
    ensures
        run.len() > 0 && (forall|i: int| 0 <= i < run.len() ==> '0' <= #[trigger] run[i] <= '9')
            ==> {
            let read = if number(run) <= 0xffff_ffff_ffff_ffff {
                Some(number(run))
            } else {
                None
            };
            parsed_u64(run) == read && parsed_u64(seq!['+'] + run) == read
        },
        parsed_u64(text) is Some ==> text.len() > 0 && (forall|i: int|
            0 <= i < text.len() ==> '0' <= #[trigger] text[i] <= '9' || (i == 0 && text[i] == '+'
                && text.len() > 1)),
{
    if run.len() > 0 && all_digits(run) {
        let signed = seq!['+'] + run;
        assert(signed[0] == '+');
        assert(signed.drop_first() =~= run);
        assert('0' <= run[0] <= '9');
    }
    if parsed_u64(text) is Some && text[0] == '+' {
        let rest = text.drop_first();
        assert forall|i: int| 0 < i < text.len() implies '0' <= #[trigger] text[i] <= '9' by {
            assert(text[i] == rest[i - 1]);
        }
    }
}

proof fn lemma_number_grows(text: Seq<char>, n: int)
    requires
        0 <= n <= text.len(),
    ensures
        number(text.take(n)) <= number(text),
    decreases text.len(),
{
    if n < text.len() {
        assert(text.drop_last().take(n) =~= text.take(n));
        lemma_number_grows(text.drop_last(), n);
    } else {
        assert(text.take(n) =~= text);
    }
}

fn digit_text(d: u64) -> (text: &'static str)
    requires
        d < 10,
    ensures
        text@ == seq![digit(d as nat)],
{
    proof {
        reveal_strlit("0");
        reveal_strlit("1");
        reveal_strlit("2");
        reveal_strlit("3");
        reveal_strlit("4");
        reveal_strlit("5");
        reveal_strlit("6");
        reveal_strlit("7");
        reveal_strlit("8");
        reveal_strlit("9");
    }
    let text = match d {
        0 => "0",
        1 => "1",
        2 => "2",
        3 => "3",
        4 => "4",
        5 => "5",
        6 => "6",
        7 => "7",
        8 => "8",
        _ => "9",
    };
    proof {
        assert(text@ =~= seq![digit(d as nat)]);
    }
    text
}

/// Writes a number in decimal.
pub fn decimal(n: u64) -> (text: String)
    ensures
        text@ == digits(n as nat),
    decreases n,
{
    if n < 10 {
        digit_text(n).to_owned()
    } else {
        let mut text = decimal(n / 10);
        text.append(digit_text(n % 10));
        proof {
            assert(text@ =~= digits((n / 10) as nat).push(digit((n % 10) as nat)));
        }
        text
    }
}

/// Reads a number of at most 64 bits.
pub fn parse_u64(text: &str) -> (parsed: Option<u64>)
    ensures
        match parsed {
            Some(n) => parsed_u64(text@) == Some(n as nat),
            None => parsed_u64(text@) is None,
        },
{
    let chars = chars_of(text);
    let start: usize = if chars.len() > 0 && chars[0] == '+' {
        1
    } else {
        0
    };
    let ghost run = if text@.len() > 0 && text@[0] == '+' {
        text@.drop_first()
    } else {
        text@
    };
    if chars.len() == start {
        return None;
    }
    let mut n: u64 = 0;
    let mut i: usize = start;
    proof {
        assert(run.take(0) =~= Seq::empty());
        assert(run =~= text@.skip(start as int));
    }
    while i < chars.len()
        invariant
            start <= i <= chars@.len(),
            start < chars@.len(),
            chars@ == text@,
            run == text@.skip(start as int),
            start == if text@.len() > 0 && text@[0] == '+' {
                1int
            } else {
                0int
            },
            all_digits(run.take(i - start)),
            n == number(run.take(i - start)),
        decreases chars@.len() - i,
    {
        let c = chars[i];
        let ghost done = run.take(i - start);
        let ghost more = run.take(i - start + 1);
        proof {
            assert(more.drop_last() =~= done);
            assert(more.last() == c);
            assert(run[i - start] == c);
            assert(run =~= if text@.len() > 0 && text@[0] == '+' {
                text@.drop_first()
            } else {
                text@
            });
        }
        if c < '0' || c > '9' {
            return None;
        }
        let d: u64 = (c as u32 - 48) as u64;
        proof {
            lemma_number_grows(run, i - start + 1);
            assert(number(more) == number(done) * 10 + d);
            assert forall|j: int| 0 <= j < more.len() implies '0' <= #[trigger] more[j] <= '9' by {
                if j < done.len() {
                    assert(more[j] == done[j]);
                }
            }
        }
        if n > (u64::MAX - d) / 10 {
            return None;
        }
        n = n * 10 + d;
        i = i + 1;
    }
    proof {
        assert(run.take(chars@.len() - start) =~= run);
        assert(run =~= if text@.len() > 0 && text@[0] == '+' {
            text@.drop_first()
        } else {
            text@
        });
    }
    Some(n)
}

} // verus!
