//! Spans of time as people write them (`250ms`, `1h 30m`), read and written by
//! the `humantime` crate.

use vstd::prelude::*;

use crate::error::{self, quote};
use crate::text::{self, chars_of, join2, join3, space, text_between};
use crate::time::Duration;

verus! {

/// The longest span, in nanoseconds: its whole seconds fit in 64 bits.
pub open spec fn range() -> nat {
    0x1_0000_0000_0000_0000 * 1_000_000_000
}

/// Whether a span is within the range that is read and written.
pub open spec fn writable(d: Duration) -> bool {
    d.nanos < range()
}

/// What the `humantime` crate reads out of a text: a span in nanoseconds, or
/// the message of the error.
pub uninterp spec fn span_read(s: Seq<char>) -> Result<nat, Seq<char>>;

/// How the `humantime` crate writes a span of so many seconds and nanoseconds.
pub uninterp spec fn span_written(secs: u64, nanos: u32) -> Seq<char>;

/// Whether `c` is a decimal digit.
pub open spec fn is_digit(c: char) -> bool {
    '0' <= c && c <= '9'
}

/// Whether `c` belongs to a unit.
pub open spec fn is_unit_part(c: char) -> bool {
    !is_digit(c) && !text::is_space(c) && c != '.'
}

/// The length of the span that `s` goes on with: up to the first digit or space
/// behind a unit. `in_unit` tells whether the text before `s` ends in a unit.
pub open spec fn span_length(s: Seq<char>, in_unit: bool) -> nat
    decreases s.len(),
{
    if s.len() == 0 || (in_unit && (is_digit(s[0]) || text::is_space(s[0]))) {
        0
    } else {
        1 + span_length(s.drop_first(), is_unit_part(s[0]))
    }
}

/// What the reader says of a number that is too large.
pub open spec fn overflow_text() -> Seq<char> {
    "number is too large or cannot be represented without a lack of precision (values below 1ns are not supported)"@
}

/// Whether a text holds no more than one span.
pub open spec fn single(s: Seq<char>) -> bool {
    span_length(s, false) == s.len()
}

/// Whether the spans in a text, read one by one up to the first that is none
/// and added to `sum`, come to the end of the range, or one of them does by
/// itself.
pub open spec fn too_large(s: Seq<char>, sum: nat) -> bool
    decreases s.len(),
{
    if s.len() == 0 {
        false
    } else {
        proof {
            span_length_facts(s, false);
        }
        let end = span_length(s, false) as int;
        match span_read(s.take(end)) {
            Ok(n) => sum + n >= range() || too_large(s.skip(end), sum + n),
            Err(message) => message == overflow_text(),
        }
    }
}

/// The span that a text spells, in nanoseconds, or what is wrong with it.
pub open spec fn duration_read(s: Seq<char>) -> Result<nat, Seq<char>> {
    if too_large(s, 0) {
        Err(overflow_text())
    } else {
        span_read(s)
    }
}

/// Whether a text is read as a span of so many nanoseconds.
pub open spec fn reads_as(s: Seq<char>, nanos: nat) -> bool {
    duration_read(s) == Ok::<nat, Seq<char>>(nanos)
}

/// The result of reading a span, by its length.
pub open spec fn reading(r: Result<Duration, String>) -> Result<nat, Seq<char>> {
    match r {
        Ok(d) => Ok(d.nanos as nat),
        Err(message) => Err(message@),
    }
}

/// `humantime::parse_duration`. Claimed: the outcome is a function of the text,
/// and a span is within the range of `std::time::Duration`. The crate panics
/// where several spans add up to the last second of the range and one second
/// more in nanoseconds, and may do so on the whole part of a span whose fraction
/// it refuses as too large or too fine; such texts are left out.
#[verifier::external_body]
fn read_span(s: &str) -> (r: Result<Duration, String>)
    requires
        single(s@) || !too_large(s@, 0),
    ensures
        reading(r) == span_read(s@),
        r matches Ok(d) ==> writable(d),
{
    match humantime::parse_duration(s) {
        Ok(d) => Ok(Duration { nanos: d.as_nanos() }),
        Err(e) => Err(e.to_string()),
    }
}

/// `humantime::format_duration`. Claimed: the text is a function of the span,
/// and reading it gives the span back, as the crate guarantees; its parts add
/// up to the span and so stay within the range.
#[verifier::external_body]
fn write_span(secs: u64, nanos: u32) -> (r: String)
    requires
        nanos < 1_000_000_000,
    ensures
        r@ == span_written(secs, nanos),
        reads_as(r@, (secs * 1_000_000_000 + nanos) as nat),
{
    humantime::format_duration(std::time::Duration::new(secs, nanos)).to_string()
}

/// A span ends within its text, and what it takes up holds no other.
pub proof fn span_length_facts(s: Seq<char>, in_unit: bool)
    ensures
        span_length(s, in_unit) <= s.len(),
        span_length(s.take(span_length(s, in_unit) as int), in_unit) == span_length(s, in_unit),
    decreases s.len(),
{
    let end = span_length(s, in_unit) as int;
    if end > 0 {
        span_length_facts(s.drop_first(), is_unit_part(s[0]));
        assert(s.take(end).drop_first() =~= s.drop_first().take(end - 1));
    }
}

/// Where the span that starts at `from` ends.
fn span_end(chars: &Vec<char>, from: usize) -> (r: usize)
    requires
        from < chars@.len(),
    ensures
        from < r <= chars@.len(),
        r == from + span_length(chars@.skip(from as int), false),
{
    let mut in_unit = false;
    let mut i: usize = from;
    while i < chars.len()
        invariant_except_break
            from < chars@.len(),
            from <= i <= chars@.len(),
            i == from ==> !in_unit,
            span_length(chars@.skip(from as int), false) == i - from + span_length(
                chars@.skip(i as int),
                in_unit,
            ),
        ensures
            from < i <= chars@.len(),
            span_length(chars@.skip(from as int), false) == i - from,
        decreases chars.len() - i,
    {
        let c = chars[i];
        proof {
            assert(chars@.skip(i as int)[0] == c);
            assert(chars@.skip(i as int).drop_first() =~= chars@.skip(i + 1));
        }
        let digit = '0' <= c && c <= '9';
        let blank = space(c);
        if in_unit && (digit || blank) {
            break;
        }
        in_unit = !digit && !blank && c != '.';
        i += 1;
    }
    i
}

fn overflow_message() -> (r: String)
    ensures
        r@ == overflow_text(),
{
    "number is too large or cannot be represented without a lack of precision (values below 1ns are not supported)".to_owned()
}

/// Whether the spans in a text come to the end of the range.
fn adds_up_too_high(s: &str) -> (r: bool)
    ensures
        r == too_large(s@, 0),
{
    let chars = chars_of(s);
    let mut from: usize = 0;
    let mut sum: u128 = 0;
    proof {
        assert(s@.skip(0) =~= s@);
    }
    while from < chars.len()
        invariant
            from <= chars@.len(),
            chars@ == s@,
            sum < range(),
            too_large(s@, 0) == too_large(s@.skip(from as int), sum as nat),
        decreases chars.len() - from,
    {
        let end: usize = span_end(&chars, from);
        let ghost rest = s@.skip(from as int);
        let ghost n = span_length(rest, false) as int;
        let span = text_between(&chars, from, end);
        proof {
            span_length_facts(rest, false);
            assert(span@ =~= rest.take(n));
            assert(rest.skip(n) =~= s@.skip(end as int));
        }
        match read_span(span.as_str()) {
            Ok(d) => {
                if sum + d.nanos >= 0x1_0000_0000_0000_0000 * 1_000_000_000 {
                    return true;
                }
                sum = sum + d.nanos;
            },
            Err(message) => {
                return *message.as_str() == *overflow_message().as_str();
            },
        }
        from = end;
    }
    false
}

/// Read a span of time as it stands, with the reader's own words for an error.
pub fn read(s: &str) -> (r: Result<Duration, String>)
    ensures
        reading(r) == duration_read(s@),
        r matches Ok(d) ==> writable(d),
{
    if adds_up_too_high(s) {
        Err(overflow_message())
    } else {
        read_span(s)
    }
}

/// What is wrong with a text that is no span, by the reader's own words.
pub fn unreadable_span(s: &str, message: &str) -> (r: String)
    ensures
        r@ == "invalid duration "@ + error::quoted(s@) + ": "@ + message@,
{
    let head = join2("invalid duration ", quote(s).as_str());
    join3(head.as_str(), ": ", message)
}

/// Read a span of time (e.g. `250ms`, `1s`).
pub fn parse_duration(s: &str) -> (r: Result<Duration, String>)
    ensures
        match (duration_read(s@), r) {
            (Ok(nanos), Ok(d)) => d.nanos == nanos && writable(d),
            (Err(m), Err(e)) => e@ == "invalid duration "@ + error::quoted(s@) + ": "@ + m,
            _ => false,
        },
{
    match read(s) {
        Ok(d) => Ok(d),
        Err(message) => Err(unreadable_span(s, message.as_str())),
    }
}

/// The written form of a span.
pub open spec fn written(d: Duration) -> Seq<char> {
    span_written(
        (d.nanos as int / 1_000_000_000) as u64,
        (d.nanos as int % 1_000_000_000) as u32,
    )
}

/// Write a span of time. Reading what was written gives the span back.
pub fn format_duration(d: Duration) -> (r: String)
    requires
        writable(d),
    ensures
        r@ == written(d),
        reads_as(r@, d.nanos as nat),
{
    let secs: u128 = d.nanos / 1_000_000_000;
    let nanos: u128 = d.nanos % 1_000_000_000;
    write_span(secs as u64, nanos as u32)
}

/// One span is read as it stands: what the reader makes of it is the result, as
/// long as its whole seconds fit in 64 bits.
pub proof fn one_span_is_read_as_it_stands(s: Seq<char>)
    requires
        s.len() > 0,
        single(s),
    ensures
        span_read(s) matches Ok(n) && n < 0x1_0000_0000_0000_0000 * 1_000_000_000 ==> duration_read(
            s,
        ) == span_read(s),
        span_read(s) matches Ok(n) && n >= 0x1_0000_0000_0000_0000 * 1_000_000_000 ==> duration_read(
            s,
        ) == Err::<nat, Seq<char>>(
            "number is too large or cannot be represented without a lack of precision (values below 1ns are not supported)"@,
        ),
        span_read(s) is Err ==> duration_read(s) == span_read(s),
{
    assert(s.take(s.len() as int) =~= s);
    assert(s.skip(s.len() as int) =~= Seq::<char>::empty());
    if let Ok(n) = span_read(s) {
        assert(!too_large(Seq::<char>::empty(), n));
    }
}

/// A span ends before a digit or a space that follows a unit, and goes on
/// otherwise: the first span of `a` and `b` is `a` where `a` is one span that ends
/// in a unit and `b` starts with a digit or a space.
proof fn first_span(a: Seq<char>, b: Seq<char>, in_unit: bool)
    requires
        span_length(a, in_unit) == a.len(),
        a.len() > 0,
        !('0' <= a.last() && a.last() <= '9') && !text::is_space(a.last()) && a.last() != '.',
        b.len() > 0,
        ('0' <= b[0] && b[0] <= '9') || text::is_space(b[0]),
    ensures
        span_length(a + b, in_unit) == a.len(),
    decreases a.len(),
{
    assert((a + b)[0] == a[0]);
    assert((a + b).drop_first() =~= a.drop_first() + b);
    if a.len() == 1 {
        assert(a.drop_first() + b =~= b);
        assert(span_length(b, true) == 0);
    } else {
        first_span(a.drop_first(), b, is_unit_part(a[0]));
    }
}

/// Spans are added up one by one: behind a span `a` that ends in a unit, what
/// starts with a digit or a space is read on with the span added to the sum. The
/// whole is too large where the sum comes to 64 bits of seconds, and a text that
/// is not too large is what the reader makes of it.
pub proof fn spans_add_up(a: Seq<char>, b: Seq<char>, sum: nat)
    requires
        single(a),
        a.len() > 0,
        !('0' <= a.last() && a.last() <= '9') && !text::is_space(a.last()) && a.last() != '.',
        b.len() > 0,
        ('0' <= b[0] && b[0] <= '9') || text::is_space(b[0]),
    ensures
        span_read(a) matches Ok(n) && sum + n < 0x1_0000_0000_0000_0000 * 1_000_000_000 ==> (
        too_large(a + b, sum) <==> too_large(b, (sum + span_read(a)->Ok_0) as nat)),
        span_read(a) matches Ok(n) && sum + n >= 0x1_0000_0000_0000_0000 * 1_000_000_000
            ==> too_large(a + b, sum),
        !too_large(a + b, 0) ==> duration_read(a + b) == span_read(a + b),
        too_large(a + b, 0) ==> duration_read(a + b) == Err::<nat, Seq<char>>(
            "number is too large or cannot be represented without a lack of precision (values below 1ns are not supported)"@,
        ),
{
    first_span(a, b, false);
    let n = a.len() as int;
    assert((a + b).take(n) =~= a);
    assert((a + b).skip(n) =~= b);
}

/// Spans are within the range where their whole seconds fit in 64 bits.
pub proof fn ranges_are_as_documented(d: Duration)
    ensures
        writable(d) <==> d.nanos as int / 1_000_000_000 < 0x1_0000_0000_0000_0000,
        reading(Ok(d)) == Ok::<nat, Seq<char>>(d.nanos as nat),
{
}

} // verus!
