//! Calendar dates as deadlines carry them: validation, parsing from text and
//! an integer key that orders them.

use vstd::prelude::*;
use vstd::string::*;

verus! {

/// A day of the proleptic Gregorian calendar, years 0 to 9999.
#[derive(Clone, Copy, Debug, PartialEq, Eq, Structural)]
pub struct Date {
    pub year: u16,
    pub month: u8,
    pub day: u8,
}

/// Whether `year` has a 29th of February.
pub open spec fn spec_is_leap_year(year: int) -> bool {
    (year % 4 == 0 && year % 100 != 0) || year % 400 == 0
}

/// The number of days of a month; 0 for a month outside 1..=12.
pub open spec fn spec_days_in_month(year: int, month: int) -> int {
    if month == 1 || month == 3 || month == 5 || month == 7 || month == 8 || month == 10 || month
        == 12 {
        31
    } else if month == 4 || month == 6 || month == 9 || month == 11 {
        30
    } else if month == 2 {
        if spec_is_leap_year(year) {
            29
        } else {
            28
        }
    } else {
        0
    }
}

/// Whether the three numbers name a day that exists.
pub open spec fn spec_is_valid_date(year: int, month: int, day: int) -> bool {
    &&& 0 <= year <= 9999
    &&& 1 <= month <= 12
    &&& 1 <= day <= spec_days_in_month(year, month)
}

/// Whether `c` is an ASCII decimal digit.
pub open spec fn spec_is_digit(c: char) -> bool {
    '0' <= c && c <= '9'
}

/// The value of a decimal digit.
pub open spec fn spec_digit_value(c: char) -> int {
    c as int - '0' as int
}

/// The number that the `count` digits of `s` from `start` spell.
pub open spec fn spec_number_at(s: Seq<char>, start: int, count: nat) -> int
    decreases count,
{
    if count == 0 {
        0
    } else {
        spec_number_at(s, start, (count - 1) as nat) * 10 + spec_digit_value(
            s[start + count - 1],
        )
    }
}

/// Whether the `count` characters of `s` from `start` are all digits.
pub open spec fn spec_digits_at(s: Seq<char>, start: int, count: nat) -> bool {
    forall|k: int| start <= k < start + count ==> spec_is_digit(#[trigger] s[k])
}

/// Whether `s` has the shape `YYYY-MM-DD`, alone or followed by a time of day
/// that a `T` or a space introduces.
pub open spec fn spec_has_date_shape(s: Seq<char>) -> bool {
    &&& s.len() >= 10
    &&& spec_digits_at(s, 0, 4)
    &&& s[4] == '-'
    &&& spec_digits_at(s, 5, 2)
    &&& s[7] == '-'
    &&& spec_digits_at(s, 8, 2)
    &&& (s.len() == 10 || s[10] == 'T' || s[10] == ' ')
}

/// The date that a text names: its shape must be right and the day must exist.
pub open spec fn spec_parse_date(s: Seq<char>) -> Option<Date> {
    if spec_has_date_shape(s) && spec_is_valid_date(
        spec_number_at(s, 0, 4),
        spec_number_at(s, 5, 2),
        spec_number_at(s, 8, 2),
    ) {
        Some(
            Date {
                year: spec_number_at(s, 0, 4) as u16,
                month: spec_number_at(s, 5, 2) as u8,
                day: spec_number_at(s, 8, 2) as u8,
            },
        )
    } else {
        None
    }
}

/// The character of a decimal digit.
pub open spec fn spec_digit_char(d: int) -> char {
    ((48 + d) as u8) as char
}

/// The last `count` decimal digits of `n`, the most significant first.
pub open spec fn spec_digits(n: int, count: nat) -> Seq<char>
    decreases count,
{
    if count == 0 {
        Seq::empty()
    } else {
        spec_digits(n / 10, (count - 1) as nat).push(spec_digit_char(n % 10))
    }
}

/// Ten to the power `count`.
pub open spec fn spec_pow10(count: nat) -> int
    decreases count,
{
    if count == 0 {
        1
    } else {
        10 * spec_pow10((count - 1) as nat)
    }
}

/// `count` digits are `count` characters.
pub proof fn digits_have_length(n: int, count: nat)
    ensures
        spec_digits(n, count).len() == count,
    decreases count,
{
    if count > 0 {
        digits_have_length(n / 10, (count - 1) as nat);
    }
}

/// Digits written are read back as the number that they were written from.
pub proof fn digits_read_back(s: Seq<char>, start: int, n: int, count: nat)
    requires
        0 <= n < spec_pow10(count),
        0 <= start,
        start + count <= s.len(),
        s.subrange(start, start + count) == spec_digits(n, count),
    ensures
        spec_digits_at(s, start, count),
        spec_number_at(s, start, count) == n,
    decreases count,
{
    if count > 0 {
        let less = (count - 1) as nat;
        let written = spec_digits(n, count);
        digits_have_length(n / 10, less);
        let shorter = s.subrange(start, start + less);
        assert(shorter =~= spec_digits(n / 10, less)) by {
            assert forall|k: int| 0 <= k < less implies #[trigger] shorter[k] == spec_digits(
                n / 10,
                less,
            )[k] by {
                assert(s.subrange(start, start + count)[k] == written[k]);
            }
        }
        digits_read_back(s, start, n / 10, less);
        assert(s[start + count - 1] == spec_digit_char(n % 10)) by {
            assert(s.subrange(start, start + count)[count - 1] == written[count - 1]);
        }
        assert forall|k: int| start <= k < start + count implies spec_is_digit(#[trigger] s[k]) by {
            if k < start + less {
                assert(spec_digits_at(s, start, less));
            }
        }
    }
}

/// The text of one decimal digit.
fn digit_text(d: u16) -> (s: &'static str)
    requires
        d <= 9,
    ensures
        s@ == seq![spec_digit_char(d as int)],
{
    proof {
        reveal_strlit("0");
        reveal_strlit("1");
        reveal_strlit("2");
        reveal_strlit("3");
        reveal_strlit("4");
        reveal_strlit("5");
        reveal_strlit("6");
        reveal_strlit("7");
        reveal_strlit("8");
        reveal_strlit("9");
    }
    let s = if d == 0 {
        "0"
    } else if d == 1 {
        "1"
    } else if d == 2 {
        "2"
    } else if d == 3 {
        "3"
    } else if d == 4 {
        "4"
    } else if d == 5 {
        "5"
    } else if d == 6 {
        "6"
    } else if d == 7 {
        "7"
    } else if d == 8 {
        "8"
    } else {
        "9"
    };
    assert(s@ =~= seq![spec_digit_char(d as int)]);
    s
}

/// Writes the last `count` decimal digits of `n` at the end of `out`.
fn append_digits(out: &mut String, n: u16, count: u8)
    ensures
        final(out)@ == old(out)@ + spec_digits(n as int, count as nat),
    decreases count,
{
    if count > 0 {
        append_digits(out, n / 10, count - 1);
        out.append(digit_text(n % 10));
        assert(out@ =~= old(out)@ + spec_digits(n as int, count as nat));
    } else {
        assert(out@ =~= old(out)@ + spec_digits(n as int, count as nat));
    }
}

/// Whether `year` has a 29th of February.
pub fn is_leap_year(year: u16) -> (leap: bool)
    ensures
        leap == spec_is_leap_year(year as int),
{
    (year % 4 == 0 && year % 100 != 0) || year % 400 == 0
}

/// The number of days of a month; 0 for a month outside 1..=12.
pub fn days_in_month(year: u16, month: u8) -> (days: u8)
    ensures
        days == spec_days_in_month(year as int, month as int),
{
    if month == 1 || month == 3 || month == 5 || month == 7 || month == 8 || month == 10 || month
        == 12 {
        31
    } else if month == 4 || month == 6 || month == 9 || month == 11 {
        30
    } else if month == 2 {
        if is_leap_year(year) {
            29
        } else {
            28
        }
    } else {
        0
    }
}

/// Reads `count` digits of `s` from `start`; `None` if one of them is no digit.
fn read_number(s: &str, start: usize, count: usize) -> (r: Option<u16>)
    requires
        start + count <= s@.len(),
        start <= 8,
        count <= 4,
    ensures
        r.is_some() == spec_digits_at(s@, start as int, count as nat),
        r.is_some() ==> r.unwrap() == spec_number_at(s@, start as int, count as nat),
        r.is_some() ==> r.unwrap() <= 9999,
{
    let mut value: u16 = 0;
    let mut i: usize = 0;
    while i < count
        invariant
            i <= count <= 4,
            start <= 8,
            start + count <= s@.len(),
            spec_digits_at(s@, start as int, i as nat),
            value == spec_number_at(s@, start as int, i as nat),
            i == 0 ==> value == 0,
            i == 1 ==> value <= 9,
            i == 2 ==> value <= 99,
            i == 3 ==> value <= 999,
            i == 4 ==> value <= 9999,
        decreases count - i,
    {
        let c = s.get_char(start + i);
        if !('0' <= c && c <= '9') {
            assert(!spec_is_digit(s@[start + i]));
            return None;
        }
        let digit: u16 = (c as u32 - '0' as u32) as u16;
        value = value * 10 + digit;
        i += 1;
    }
    Some(value)
}

impl Date {
    /// Whether the date names a day that exists.
    pub open spec fn valid(self) -> bool {
        spec_is_valid_date(self.year as int, self.month as int, self.day as int)
    }

    /// An integer that grows with the date: the digits `YYYYMMDD` read as one
    /// number.
    pub open spec fn spec_key(self) -> int {
        self.year as int * 10000 + self.month as int * 100 + self.day as int
    }

    /// The date as text: four digits of year, two of month and two of day,
    /// with hyphens between.
    pub open spec fn spec_text(self) -> Seq<char> {
        spec_digits(self.year as int, 4) + seq!['-'] + spec_digits(self.month as int, 2) + seq![
            '-',
        ] + spec_digits(self.day as int, 2)
    }

    /// The date as text of the shape `YYYY-MM-DD`. Of a year beyond 9999 only
    /// the last four digits are written, and of a month or day beyond 99 the
    /// last two; dates that exist are written in full.
    pub fn to_text(&self) -> (text: String)
        ensures
            text@ == self.spec_text(),
    {
        let mut text = String::new();
        append_digits(&mut text, self.year, 4);
        proof {
            reveal_strlit("-");
        }
        text.append("-");
        append_digits(&mut text, self.month as u16, 2);
        text.append("-");
        append_digits(&mut text, self.day as u16, 2);
        assert(text@ =~= self.spec_text());
        text
    }

    /// A date from its three numbers, if that day exists.
    pub fn new(year: u16, month: u8, day: u8) -> (r: Option<Date>)
        ensures
            r.is_some() == spec_is_valid_date(year as int, month as int, day as int),
            r.is_some() ==> r.unwrap() == (Date { year, month, day }),
    {
        if year <= 9999 && 1 <= month && month <= 12 && 1 <= day && day <= days_in_month(
            year,
            month,
        ) {
            Some(Date { year, month, day })
        } else {
            None
        }
    }

    /// Reads a date from text of the shape `YYYY-MM-DD`, optionally followed
    /// by a time of day after a `T` or a space. A text of another shape, or
    /// one that names a day that does not exist, gives `None`.
    pub fn parse(text: &String) -> (r: Option<Date>)
        ensures
            r == spec_parse_date(text@),
            r.is_some() ==> r.unwrap().valid(),
    {
        let s = text.as_str();
        let n = s.unicode_len();
        if n < 10 {
            return None;
        }
        if n > 10 {
            let sep = s.get_char(10);
            if sep != 'T' && sep != ' ' {
                return None;
            }
        }
        if s.get_char(4) != '-' || s.get_char(7) != '-' {
            return None;
        }
        let year = match read_number(s, 0, 4) {
            Some(y) => y,
            None => { return None; },
        };
        let month = match read_number(s, 5, 2) {
            Some(m) => m,
            None => { return None; },
        };
        let day = match read_number(s, 8, 2) {
            Some(d) => d,
            None => { return None; },
        };
        if month > 255 || day > 255 {
            return None;
        }
        Date::new(year, month as u8, day as u8)
    }

    /// Whether the date names a day that exists.
    pub fn is_valid(&self) -> (valid: bool)
        ensures
            valid == self.valid(),
    {
        self.year <= 9999 && 1 <= self.month && self.month <= 12 && 1 <= self.day && self.day
            <= days_in_month(self.year, self.month)
    }

    /// The ordering key of the date.
    pub fn key(&self) -> (k: u64)
        ensures
            k == self.spec_key(),
    {
        (self.year as u64) * 10000 + (self.month as u64) * 100 + (self.day as u64)
    }

    /// Whether two dates are the same day.
    pub fn same_day(&self, other: &Date) -> (same: bool)
        ensures
            same == (*self == *other),
    {
        self.year == other.year && self.month == other.month && self.day == other.day
    }
}

/// A date that exists is read back from its text.
pub proof fn date_text_round_trip(d: Date)
    requires
        d.valid(),
    ensures
        spec_parse_date(d.spec_text()) == Some(d),
{
    let t = d.spec_text();
    let y = spec_digits(d.year as int, 4);
    let m = spec_digits(d.month as int, 2);
    let day = spec_digits(d.day as int, 2);
    digits_have_length(d.year as int, 4);
    digits_have_length(d.month as int, 2);
    digits_have_length(d.day as int, 2);
    assert(t.len() == 10);
    assert(t.subrange(0, 4) =~= y);
    assert(t.subrange(5, 7) =~= m);
    assert(t.subrange(8, 10) =~= day);
    assert(t[4] == '-');
    assert(t[7] == '-');
    assert(spec_pow10(4) == 10000 && spec_pow10(2) == 100) by {
        reveal_with_fuel(spec_pow10, 5);
    }
    digits_read_back(t, 0, d.year as int, 4);
    digits_read_back(t, 5, d.month as int, 2);
    digits_read_back(t, 8, d.day as int, 2);
}

/// The number of days from the day `year_b`-`month_b`-`day_b` to the day
/// `year_a`-`month_a`-`day_a`, as `chrono` counts them; negative where the
/// first day given is the earlier one.
pub uninterp spec fn spec_days_between(
    year_a: int,
    month_a: int,
    day_a: int,
    year_b: int,
    month_b: int,
    day_b: int,
) -> i64;

/// The number of days from `earlier` to `later`; negative where `later` is
/// in fact the earlier day.
///
/// Builds both days with `chrono::NaiveDate::from_ymd_opt`, takes their
/// difference with `chrono::NaiveDate::signed_duration_since` and reads it in
/// whole days with `chrono::TimeDelta::num_days`. Trusted: for two days that
/// exist the answer is there, and it depends on the two days alone.
#[verifier::external_body]
pub(crate) fn days_between(later: &Date, earlier: &Date) -> (days: Option<i64>)
    ensures
        later.valid() && earlier.valid() ==> days == Some(
            spec_days_between(
                later.year as int,
                later.month as int,
                later.day as int,
                earlier.year as int,
                earlier.month as int,
                earlier.day as int,
            ),
        ),
{
    let a = chrono::NaiveDate::from_ymd_opt(later.year.into(), later.month.into(), later.day.into())?;
    let b = chrono::NaiveDate::from_ymd_opt(
        earlier.year.into(),
        earlier.month.into(),
        earlier.day.into(),
    )?;
    Some(a.signed_duration_since(b).num_days())
}

/// Among valid dates the key orders as the calendar does, and tells days apart.
pub proof fn date_key_orders(a: Date, b: Date)
    requires
        a.valid(),
        b.valid(),
    ensures
        a.spec_key() == b.spec_key() <==> a == b,
        a.spec_key() < b.spec_key() <==> (a.year < b.year || (a.year == b.year && (a.month
            < b.month || (a.month == b.month && a.day < b.day)))),
{
}

} // verus!
