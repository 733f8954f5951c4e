//! Zone-less timestamps with second precision: their RFC 3339 text in UTC,
//! written and read back, and the date parser that the grammars of the
//! clipping dates are read with.

use vstd::prelude::*;
use chrono::{Datelike, Timelike};
use crate::text::{chars_of, matches_at, string_of};

verus! {

/// A calendar date and wall-clock time without a zone, to the second. The
/// export records no offset; on output the value is taken to be UTC.
///
/// There is no second 60 here. Where the date library reads a leap second
/// (`23:59:60`), it reports second 59 with the rest in its nanoseconds;
/// only the second is kept, so such a moment is recorded, and later
/// written, as `23:59:59`.
#[derive(Clone, Copy, Debug, PartialEq, Eq, Structural)]
pub struct Timestamp {
    pub year: i32,
    pub month: u32,
    pub day: u32,
    pub hour: u32,
    pub minute: u32,
    pub second: u32,
}

/// `chrono::format::ParseError`, the reason a text was not read as a date.
#[verifier::external_type_specification]
#[verifier::external_body]
pub struct ExDateParseError(chrono::format::ParseError);

/// Leap years of the proleptic Gregorian calendar.
pub open spec fn is_leap_year(year: int) -> bool {
    year % 4 == 0 && (year % 100 != 0 || year % 400 == 0)
}

/// The number of days of `month` (1 to 12) in `year`.
pub open spec fn days_in_month(year: int, month: int) -> int {
    if month == 2 {
        if is_leap_year(year) {
            29
        } else {
            28
        }
    } else if month == 4 || month == 6 || month == 9 || month == 11 {
        30
    } else {
        31
    }
}

/// The character for a decimal digit.
pub open spec fn digit(d: int) -> char {
    if d == 0 {
        '0'
    } else if d == 1 {
        '1'
    } else if d == 2 {
        '2'
    } else if d == 3 {
        '3'
    } else if d == 4 {
        '4'
    } else if d == 5 {
        '5'
    } else if d == 6 {
        '6'
    } else if d == 7 {
        '7'
    } else if d == 8 {
        '8'
    } else {
        '9'
    }
}

/// The last two decimal digits of `n`.
pub open spec fn two_digits(n: int) -> Seq<char> {
    seq![digit((n / 10) % 10), digit(n % 10)]
}

/// `n` in decimal, without leading zeros.
pub open spec fn decimal(n: int) -> Seq<char>
    decreases n,
{
    if n < 10 {
        seq![digit(n)]
    } else {
        decimal(n / 10).push(digit(n % 10))
    }
}

/// A year as RFC 3339 writes it: four digits from 0 to 9999; outside that
/// range a sign and at least four digits.
pub open spec fn year_text(year: int) -> Seq<char> {
    if 0 <= year <= 9999 {
        two_digits(year / 100) + two_digits(year % 100)
    } else if year < 0 {
        if -year <= 9999 {
            seq!['-'] + two_digits(-year / 100) + two_digits(-year % 100)
        } else {
            seq!['-'] + decimal(-year)
        }
    } else {
        seq!['+'] + decimal(year)
    }
}

/// What follows the year in RFC 3339 text: month, day, `T`, the time of
/// day, and the offset of UTC.
pub open spec fn after_year(t: Timestamp) -> Seq<char> {
    seq!['-'] + two_digits(t.month as int) + seq!['-'] + two_digits(t.day as int) + seq!['T']
        + two_digits(t.hour as int) + seq![':'] + two_digits(t.minute as int) + seq![':']
        + two_digits(t.second as int) + seq!['+', '0', '0', ':', '0', '0']
}

/// The RFC 3339 text of `t` in UTC, to the second:
/// `YYYY-MM-DDTHH:MM:SS+00:00`.
pub open spec fn rfc3339_text(t: Timestamp) -> Seq<char> {
    year_text(t.year as int) + after_year(t)
}

/// The number a decimal digit stands for.
pub open spec fn digit_value(c: char) -> Option<int> {
    if c == '0' {
        Some(0)
    } else if c == '1' {
        Some(1)
    } else if c == '2' {
        Some(2)
    } else if c == '3' {
        Some(3)
    } else if c == '4' {
        Some(4)
    } else if c == '5' {
        Some(5)
    } else if c == '6' {
        Some(6)
    } else if c == '7' {
        Some(7)
    } else if c == '8' {
        Some(8)
    } else if c == '9' {
        Some(9)
    } else {
        None
    }
}

/// The number that the two digits at `at` stand for.
pub open spec fn pair_value(text: Seq<char>, at: int) -> Option<int> {
    match (digit_value(text[at]), digit_value(text[at + 1])) {
        (Some(tens), Some(ones)) => Some(10 * tens + ones),
        _ => None,
    }
}

/// The fields of a text of twenty-five characters that has digits where
/// `YYYY-MM-DDTHH:MM:SS+00:00` has its numbers.
pub open spec fn fields_of(text: Seq<char>) -> Option<Timestamp> {
    if text.len() != 25 {
        None
    } else {
        match (
            pair_value(text, 0),
            pair_value(text, 2),
            pair_value(text, 5),
            pair_value(text, 8),
            pair_value(text, 11),
            pair_value(text, 14),
            pair_value(text, 17),
        ) {
            (
                Some(century),
                Some(year),
                Some(month),
                Some(day),
                Some(hour),
                Some(minute),
                Some(second),
            ) => Some(
                Timestamp {
                    year: (100 * century + year) as i32,
                    month: month as u32,
                    day: day as u32,
                    hour: hour as u32,
                    minute: minute as u32,
                    second: second as u32,
                },
            ),
            _ => None,
        }
    }
}

/// `text` is the RFC 3339 text of `t`, a timestamp that exists in a year
/// of four digits.
pub open spec fn is_rfc3339_of(text: Seq<char>, t: Timestamp) -> bool {
    &&& t.is_valid()
    &&& 0 <= t.year <= 9999
    &&& rfc3339_text(t) == text
}

/// The timestamp that `text` is the RFC 3339 text of, where there is one.
pub open spec fn canonical_reading(text: Seq<char>) -> Option<Timestamp> {
    if exists|t: Timestamp| is_rfc3339_of(text, t) {
        Some(choose|t: Timestamp| is_rfc3339_of(text, t))
    } else {
        None
    }
}

/// What `Timestamp::from_rfc3339` makes of `text`: the timestamp that
/// `text` is the RFC 3339 text of, and else what the RFC 3339 reader of the
/// date library makes of it.
pub open spec fn rfc3339_reading(text: Seq<char>) -> Option<Timestamp> {
    match canonical_reading(text) {
        Some(t) => Some(t),
        None => rfc3339_parse(text),
    }
}

/// What the date parser makes of `text` under the `strftime`-style `format`:
/// the fields of the date and time it reads, or `None` where it rejects.
/// Of a leap second the fields hold second 59.
pub uninterp spec fn datetime_parse(text: Seq<char>, format: Seq<char>) -> Option<Timestamp>;

/// What the RFC 3339 reader makes of `text`: the fields of the moment it
/// denotes, taken in UTC, or `None` where it rejects. Of a leap second the
/// fields hold second 59.
pub uninterp spec fn rfc3339_parse(text: Seq<char>) -> Option<Timestamp>;

proof fn lemma_two_digits_differ(a: int, b: int)
    requires
        0 <= a < 100,
        0 <= b < 100,
        a != b,
    ensures
        two_digits(a) != two_digits(b),
{
    if a / 10 != b / 10 {
        assert(two_digits(a)[0] != two_digits(b)[0]);
    } else {
        assert(two_digits(a)[1] != two_digits(b)[1]);
    }
}

proof fn lemma_decimal_length(n: int)
    requires
        0 <= n,
    ensures
        decimal(n).len() >= 1,
        n >= 10 ==> decimal(n).len() >= 2,
        n >= 10000 ==> decimal(n).len() >= 5,
    decreases n,
{
    if n >= 10 {
        lemma_decimal_length(n / 10);
        if n >= 100 {
            lemma_decimal_length(n / 100);
            assert(n / 10 / 10 == n / 100);
            if n >= 1000 {
                lemma_decimal_length(n / 1000);
                assert(n / 100 / 10 == n / 1000);
                reveal_with_fuel(decimal, 4);
            }
        }
    }
}

proof fn lemma_decimal_differs(a: int, b: int)
    requires
        0 <= a,
        0 <= b,
        a != b,
    ensures
        decimal(a) != decimal(b),
    decreases a,
{
    lemma_decimal_length(a);
    lemma_decimal_length(b);
    if a < 10 && b < 10 {
        assert(decimal(a)[0] != decimal(b)[0]);
    } else if a < 10 || b < 10 {
        assert(decimal(a).len() != decimal(b).len());
    } else {
        if a % 10 != b % 10 {
            assert(decimal(a).last() != decimal(b).last());
        } else {
            lemma_decimal_differs(a / 10, b / 10);
            assert(decimal(a).drop_last() == decimal(a / 10));
            assert(decimal(b).drop_last() == decimal(b / 10));
        }
    }
}

proof fn lemma_four_digits_differ(a: int, b: int)
    requires
        0 <= a <= 9999,
        0 <= b <= 9999,
        a != b,
    ensures
        two_digits(a / 100) + two_digits(a % 100) != two_digits(b / 100) + two_digits(b % 100),
{
    let x = two_digits(a / 100) + two_digits(a % 100);
    let y = two_digits(b / 100) + two_digits(b % 100);
    if a / 100 != b / 100 {
        lemma_two_digits_differ(a / 100, b / 100);
        assert(x.subrange(0, 2) == two_digits(a / 100));
        assert(y.subrange(0, 2) == two_digits(b / 100));
    } else {
        lemma_two_digits_differ(a % 100, b % 100);
        assert(x.subrange(2, 4) == two_digits(a % 100));
        assert(y.subrange(2, 4) == two_digits(b % 100));
    }
}

/// Two years are written alike only where they are the same year.
pub proof fn lemma_year_text_differs(a: int, b: int)
    requires
        a != b,
    ensures
        year_text(a) != year_text(b),
{
    let x = year_text(a);
    let y = year_text(b);
    if 0 <= a <= 9999 && 0 <= b <= 9999 {
        lemma_four_digits_differ(a, b);
    } else if 0 <= a <= 9999 || 0 <= b <= 9999 {
        assert(x[0] != y[0]);
    } else if (a < 0) != (b < 0) {
        assert(x[0] != y[0]);
    } else {
        let m = if a < 0 {
            -a
        } else {
            a
        };
        let n = if b < 0 {
            -b
        } else {
            b
        };
        lemma_decimal_length(m);
        lemma_decimal_length(n);
        if m <= 9999 && n <= 9999 {
            lemma_four_digits_differ(m, n);
            assert(x.skip(1) == two_digits(m / 100) + two_digits(m % 100));
            assert(y.skip(1) == two_digits(n / 100) + two_digits(n % 100));
        } else if m <= 9999 || n <= 9999 {
            assert(x.len() != y.len());
        } else {
            lemma_decimal_differs(m, n);
            assert(x.skip(1) == decimal(m));
            assert(y.skip(1) == decimal(n));
        }
    }
}

/// RFC 3339 text loses nothing: two timestamps that exist are written
/// alike only where they are the same timestamp.
pub proof fn lemma_rfc3339_text_is_lossless(a: Timestamp, b: Timestamp)
    requires
        a.is_valid(),
        b.is_valid(),
        rfc3339_text(a) == rfc3339_text(b),
    ensures
        a == b,
{
    let x = rfc3339_text(a);
    let y = rfc3339_text(b);
    let ya = year_text(a.year as int);
    let yb = year_text(b.year as int);
    let ta = after_year(a);
    let tb = after_year(b);
    assert(ta.len() == 21);
    assert(tb.len() == 21);
    assert(ya.len() == yb.len()) by {
        assert(x.len() == ya.len() + 21);
        assert(y.len() == yb.len() + 21);
    }
    assert(ya == yb) by {
        assert(x.take(ya.len() as int) == ya);
        assert(y.take(yb.len() as int) == yb);
    }
    assert(ta == tb) by {
        assert(x.skip(ya.len() as int) == ta);
        assert(y.skip(yb.len() as int) == tb);
    }
    if a.year != b.year {
        lemma_year_text_differs(a.year as int, b.year as int);
    }
    if a.month != b.month {
        lemma_two_digits_differ(a.month as int, b.month as int);
        assert(ta.subrange(1, 3) == two_digits(a.month as int));
        assert(tb.subrange(1, 3) == two_digits(b.month as int));
    }
    if a.day != b.day {
        lemma_two_digits_differ(a.day as int, b.day as int);
        assert(ta.subrange(4, 6) == two_digits(a.day as int));
        assert(tb.subrange(4, 6) == two_digits(b.day as int));
    }
    if a.hour != b.hour {
        lemma_two_digits_differ(a.hour as int, b.hour as int);
        assert(ta.subrange(7, 9) == two_digits(a.hour as int));
        assert(tb.subrange(7, 9) == two_digits(b.hour as int));
    }
    if a.minute != b.minute {
        lemma_two_digits_differ(a.minute as int, b.minute as int);
        assert(ta.subrange(10, 12) == two_digits(a.minute as int));
        assert(tb.subrange(10, 12) == two_digits(b.minute as int));
    }
    if a.second != b.second {
        lemma_two_digits_differ(a.second as int, b.second as int);
        assert(ta.subrange(13, 15) == two_digits(a.second as int));
        assert(tb.subrange(13, 15) == two_digits(b.second as int));
    }
}

proof fn lemma_pair_value(text: Seq<char>, at: int, n: int)
    requires
        0 <= n < 100,
        0 <= at,
        at + 2 <= text.len(),
        text.subrange(at, at + 2) == two_digits(n),
    ensures
        pair_value(text, at) == Some(n),
{
    assert(text[at] == text.subrange(at, at + 2)[0]);
    assert(text[at + 1] == text.subrange(at, at + 2)[1]);
}

proof fn lemma_fields_of_text(t: Timestamp)
    requires
        t.is_valid(),
        0 <= t.year <= 9999,
    ensures
        rfc3339_text(t).len() == 25,
        fields_of(rfc3339_text(t)) == Some(t),
{
    let text = rfc3339_text(t);
    let y = t.year as int;
    let head = year_text(y);
    let tail = after_year(t);
    assert(head.len() == 4);
    assert(tail.len() == 21);
    assert(text.len() == 25);
    assert(text.subrange(0, 2) == two_digits(y / 100)) by {
        assert(head.subrange(0, 2) == two_digits(y / 100));
        assert(text.subrange(0, 2) == head.subrange(0, 2));
    }
    assert(text.subrange(2, 4) == two_digits(y % 100)) by {
        assert(head.subrange(2, 4) == two_digits(y % 100));
        assert(text.subrange(2, 4) == head.subrange(2, 4));
    }
    assert(text.subrange(5, 7) == two_digits(t.month as int)) by {
        assert(tail.subrange(1, 3) == two_digits(t.month as int));
        assert(text.subrange(5, 7) == tail.subrange(1, 3));
    }
    assert(text.subrange(8, 10) == two_digits(t.day as int)) by {
        assert(tail.subrange(4, 6) == two_digits(t.day as int));
        assert(text.subrange(8, 10) == tail.subrange(4, 6));
    }
    assert(text.subrange(11, 13) == two_digits(t.hour as int)) by {
        assert(tail.subrange(7, 9) == two_digits(t.hour as int));
        assert(text.subrange(11, 13) == tail.subrange(7, 9));
    }
    assert(text.subrange(14, 16) == two_digits(t.minute as int)) by {
        assert(tail.subrange(10, 12) == two_digits(t.minute as int));
        assert(text.subrange(14, 16) == tail.subrange(10, 12));
    }
    assert(text.subrange(17, 19) == two_digits(t.second as int)) by {
        assert(tail.subrange(13, 15) == two_digits(t.second as int));
        assert(text.subrange(17, 19) == tail.subrange(13, 15));
    }
    lemma_pair_value(text, 0, y / 100);
    lemma_pair_value(text, 2, y % 100);
    lemma_pair_value(text, 5, t.month as int);
    lemma_pair_value(text, 8, t.day as int);
    lemma_pair_value(text, 11, t.hour as int);
    lemma_pair_value(text, 14, t.minute as int);
    lemma_pair_value(text, 17, t.second as int);
}

/// A text is the RFC 3339 text of a timestamp exactly where its fields
/// are a timestamp that exists and is written as the text is.
proof fn lemma_reading_decided(text: Seq<char>)
    ensures
        canonical_reading(text) == match fields_of(text) {
            Some(t) => if t.is_valid() && 0 <= t.year <= 9999 && rfc3339_text(t) == text {
                Some(t)
            } else {
                None
            },
            None => None,
        },
{
    if exists|t: Timestamp| is_rfc3339_of(text, t) {
        let chosen = choose|t: Timestamp| is_rfc3339_of(text, t);
        lemma_fields_of_text(chosen);
    } else {
        match fields_of(text) {
            Some(t) => {
                if t.is_valid() && 0 <= t.year <= 9999 && rfc3339_text(t) == text {
                    assert(is_rfc3339_of(text, t));
                }
            },
            None => {},
        }
    }
}

/// Reading back what was written gives the timestamp that was written,
/// for every timestamp that exists in a year of four digits.
pub proof fn lemma_rfc3339_round_trip(t: Timestamp)
    requires
        t.is_valid(),
        0 <= t.year <= 9999,
    ensures
        canonical_reading(rfc3339_text(t)) == Some(t),
        rfc3339_reading(rfc3339_text(t)) == Some(t),
{
    let text = rfc3339_text(t);
    assert(is_rfc3339_of(text, t));
    let chosen = choose|c: Timestamp| is_rfc3339_of(text, c);
    lemma_rfc3339_text_is_lossless(chosen, t);
}

impl Timestamp {
    /// A date that exists in the proleptic Gregorian calendar, with a time
    /// of day before midnight.
    pub open spec fn is_valid(&self) -> bool {
        &&& 1 <= self.month <= 12
        &&& 1 <= self.day <= days_in_month(self.year as int, self.month as int)
        &&& self.hour < 24
        &&& self.minute < 60
        &&& self.second < 60
    }

    /// Whether the fields name a date and time that exist.
    pub fn check_valid(&self) -> (b: bool)
        ensures
            b == self.is_valid(),
    {
        if self.month < 1 || self.month > 12 || self.day < 1 {
            return false;
        }
        let leap = self.year % 4 == 0 && (self.year % 100 != 0 || self.year % 400 == 0);
        let days: u32 = if self.month == 2 {
            if leap {
                29
            } else {
                28
            }
        } else if self.month == 4 || self.month == 6 || self.month == 9 || self.month == 11 {
            30
        } else {
            31
        };
        self.day <= days && self.hour < 24 && self.minute < 60 && self.second < 60
    }

    /// The timestamp as RFC 3339 text in UTC, to the second.
    pub fn to_rfc3339(&self) -> (out: String)
        ensures
            out@ == rfc3339_text(*self),
    {
        let buf = self.rfc3339_chars();
        string_of(buf.as_slice())
    }

    /// The characters of the timestamp's RFC 3339 text.
    pub fn rfc3339_chars(&self) -> (buf: Vec<char>)
        ensures
            buf@ == rfc3339_text(*self),
    {
        let mut buf: Vec<char> = Vec::new();
        push_year(&mut buf, self.year);
        buf.push('-');
        push_two_digits(&mut buf, self.month);
        buf.push('-');
        push_two_digits(&mut buf, self.day);
        buf.push('T');
        push_two_digits(&mut buf, self.hour);
        buf.push(':');
        push_two_digits(&mut buf, self.minute);
        buf.push(':');
        push_two_digits(&mut buf, self.second);
        buf.push('+');
        buf.push('0');
        buf.push('0');
        buf.push(':');
        buf.push('0');
        buf.push('0');
        assert(buf@ == rfc3339_text(*self));
        buf
    }

    /// Reads RFC 3339 text and gives the moment it denotes, in UTC. What
    /// `to_rfc3339` writes for a year of four digits is read back here;
    /// every other text is left to the date library.
    pub fn from_rfc3339(text: &str) -> (r: Option<Timestamp>)
        ensures
            r == rfc3339_reading(text@),
            r matches Some(t) ==> t.is_valid(),
    {
        let chars = chars_of(text);
        match read_canonical(chars.as_slice()) {
            Some(t) => Some(t),
            None => match read_rfc3339(text) {
                Ok(t) => Some(t),
                Err(_) => None,
            },
        }
    }
}

fn digit_of(c: char) -> (r: Option<u32>)
    ensures
        match r {
            Some(d) => d < 10 && digit_value(c) == Some(d as int),
            None => digit_value(c) is None,
        },
{
    if c == '0' {
        Some(0)
    } else if c == '1' {
        Some(1)
    } else if c == '2' {
        Some(2)
    } else if c == '3' {
        Some(3)
    } else if c == '4' {
        Some(4)
    } else if c == '5' {
        Some(5)
    } else if c == '6' {
        Some(6)
    } else if c == '7' {
        Some(7)
    } else if c == '8' {
        Some(8)
    } else if c == '9' {
        Some(9)
    } else {
        None
    }
}

fn pair_at(chars: &[char], at: usize) -> (r: Option<u32>)
    requires
        at + 1 < chars.len(),
    ensures
        match r {
            Some(v) => v < 100 && pair_value(chars@, at as int) == Some(v as int),
            None => pair_value(chars@, at as int) is None,
        },
{
    match (digit_of(chars[at]), digit_of(chars[at + 1])) {
        (Some(tens), Some(ones)) => Some(10 * tens + ones),
        _ => None,
    }
}

fn read_fields(chars: &[char]) -> (r: Option<Timestamp>)
    ensures
        r == fields_of(chars@),
        r matches Some(t) ==> 0 <= t.year <= 9999,
{
    if chars.len() != 25 {
        return None;
    }
    match (
        pair_at(chars, 0),
        pair_at(chars, 2),
        pair_at(chars, 5),
        pair_at(chars, 8),
        pair_at(chars, 11),
        pair_at(chars, 14),
        pair_at(chars, 17),
    ) {
        (
            Some(century),
            Some(year),
            Some(month),
            Some(day),
            Some(hour),
            Some(minute),
            Some(second),
        ) => Some(
            Timestamp { year: (100 * century + year) as i32, month, day, hour, minute, second },
        ),
        _ => None,
    }
}

/// The timestamp that `chars` is the RFC 3339 text of, where there is one.
fn read_canonical(chars: &[char]) -> (r: Option<Timestamp>)
    ensures
        r == canonical_reading(chars@),
        r matches Some(t) ==> t.is_valid(),
{
    proof {
        lemma_reading_decided(chars@);
    }
    match read_fields(chars) {
        Some(t) => {
            let valid = t.check_valid();
            let written = t.rfc3339_chars();
            let same = same_chars(written.as_slice(), chars);
            if valid && same {
                Some(t)
            } else {
                None
            }
        },
        None => None,
    }
}

fn same_chars(a: &[char], b: &[char]) -> (same: bool)
    ensures
        same == (a@ == b@),
{
    if a.len() != b.len() {
        return false;
    }
    assert(b@.subrange(0, b@.len() as int) == b@);
    matches_at(b, a, 0)
}

fn digit_char(d: u32) -> (c: char)
    requires
        d < 10,
    ensures
        c == digit(d as int),
{
    if d == 0 {
        '0'
    } else if d == 1 {
        '1'
    } else if d == 2 {
        '2'
    } else if d == 3 {
        '3'
    } else if d == 4 {
        '4'
    } else if d == 5 {
        '5'
    } else if d == 6 {
        '6'
    } else if d == 7 {
        '7'
    } else if d == 8 {
        '8'
    } else {
        '9'
    }
}

fn push_two_digits(buf: &mut Vec<char>, n: u32)
    ensures
        final(buf)@ == old(buf)@ + two_digits(n as int),
{
    buf.push(digit_char((n / 10) % 10));
    buf.push(digit_char(n % 10));
    assert(buf@ == old(buf)@ + two_digits(n as int));
}

fn push_decimal(buf: &mut Vec<char>, n: u32)
    ensures
        final(buf)@ == old(buf)@ + decimal(n as int),
    decreases n,
{
    if n >= 10 {
        push_decimal(buf, n / 10);
    }
    buf.push(digit_char(n % 10));
    assert(buf@ == old(buf)@ + decimal(n as int));
}

fn push_year(buf: &mut Vec<char>, year: i32)
    ensures
        final(buf)@ == old(buf)@ + year_text(year as int),
{
    if 0 <= year && year <= 9999 {
        let y: u32 = year as u32;
        push_two_digits(buf, y / 100);
        push_two_digits(buf, y % 100);
        assert(buf@ == old(buf)@ + year_text(year as int));
    } else if year < 0 {
        let wide: i64 = year as i64;
        let m: u32 = (0 - wide) as u32;
        buf.push('-');
        if m <= 9999 {
            push_two_digits(buf, m / 100);
            push_two_digits(buf, m % 100);
        } else {
            push_decimal(buf, m);
        }
        assert(buf@ == old(buf)@ + year_text(year as int));
    } else {
        buf.push('+');
        push_decimal(buf, year as u32);
        assert(buf@ == old(buf)@ + year_text(year as int));
    }
}

/// `NaiveDateTime::parse_from_str`: reads `text` under `format`. The fields
/// of what it reads are those of a date and time that exist.
#[verifier::external_body]
pub(crate) fn parse_datetime(text: &str, format: &str) -> (r: Result<
    Timestamp,
    chrono::format::ParseError,
>)
    ensures
        r matches Ok(t) ==> datetime_parse(text@, format@) == Some(t) && t.is_valid(),
        r is Err ==> datetime_parse(text@, format@) is None,
{
    match chrono::NaiveDateTime::parse_from_str(text, format) {
        Ok(d) => Ok(
            Timestamp {
                year: d.year(),
                month: d.month(),
                day: d.day(),
                hour: d.hour(),
                minute: d.minute(),
                second: d.second(),
            },
        ),
        Err(e) => Err(e),
    }
}

/// `DateTime::parse_from_rfc3339`, then `naive_utc`: reads RFC 3339 text
/// and shifts it to UTC. The fields are those of a date and time that exist.
#[verifier::external_body]
fn read_rfc3339(text: &str) -> (r: Result<Timestamp, chrono::format::ParseError>)
    ensures
        r matches Ok(t) ==> rfc3339_parse(text@) == Some(t) && t.is_valid(),
        r is Err ==> rfc3339_parse(text@) is None,
{
    match chrono::DateTime::parse_from_rfc3339(text) {
        Ok(d) => Ok(
            Timestamp {
                year: d.naive_utc().year(),
                month: d.naive_utc().month(),
                day: d.naive_utc().day(),
                hour: d.naive_utc().hour(),
                minute: d.naive_utc().minute(),
                second: d.naive_utc().second(),
            },
        ),
        Err(e) => Err(e),
    }
}

} // verus!
