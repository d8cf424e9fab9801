use vstd::prelude::*;
use vstd::string::*;

verus! {

/// A calendar date, held as plain values.
///
/// The recommendation workflow receives "today" in this form; whoever reads
/// the wall clock converts into it at the boundary.
#[derive(Clone, Copy, PartialEq, Eq, Structural, Debug)]
pub struct Date {
    pub year: u32,
    pub month: u32,
    pub day: u32,
}

/// A point in time as written in branch listings, normalized to a naive
/// (offset-free) local timestamp.
#[derive(Clone, Copy, PartialEq, Eq, Structural, Debug)]
pub struct Timestamp {
    pub year: u32,
    pub month: u32,
    pub day: u32,
    pub hour: u32,
    pub minute: u32,
    pub second: u32,
}

pub open spec fn is_leap_year(y: int) -> bool {
    y % 4 == 0 && (y % 100 != 0 || y % 400 == 0)
}

pub open spec fn days_in_month(y: int, m: int) -> int {
    if m == 2 {
        if is_leap_year(y) {
            29
        } else {
            28
        }
    } else if m == 4 || m == 6 || m == 9 || m == 11 {
        30
    } else {
        31
    }
}

impl Date {
    /// A date is valid when it names a day of the proleptic Gregorian
    /// calendar writable with a four-digit year.
    pub open spec fn valid(self) -> bool {
        self.year <= 9999 && 1 <= self.month <= 12 && 1 <= self.day <= days_in_month(
            self.year as int,
            self.month as int,
        )
    }
}

impl Timestamp {
    pub open spec fn date(self) -> Date {
        Date { year: self.year, month: self.month, day: self.day }
    }

    /// A timestamp is valid when its date is valid and its time of day is in
    /// range (leap seconds are not represented).
    pub open spec fn valid(self) -> bool {
        self.date().valid() && self.hour <= 23 && self.minute <= 59 && self.second <= 59
    }
}

/// The number of days of month `m` of year `y`.
pub fn month_length(y: u32, m: u32) -> (d: u32)
    ensures
        d == days_in_month(y as int, m as int),
{
    if m == 2 {
        if y % 4 == 0 && (y % 100 != 0 || y % 400 == 0) {
            29
        } else {
            28
        }
    } else if m == 4 || m == 6 || m == 9 || m == 11 {
        30
    } else {
        31
    }
}

impl Date {
    pub fn check_valid(&self) -> (b: bool)
        ensures
            b == self.valid(),
    {
        self.year <= 9999 && 1 <= self.month && self.month <= 12 && 1 <= self.day && self.day
            <= month_length(self.year, self.month)
    }
}

impl Timestamp {
    pub fn check_valid(&self) -> (b: bool)
        ensures
            b == self.valid(),
    {
        let d = Date { year: self.year, month: self.month, day: self.day };
        d.check_valid() && self.hour <= 23 && self.minute <= 59 && self.second <= 59
    }
}

pub open spec fn digit_char(d: int) -> char {
    if d == 0 {
        '0'
    } else if d == 1 {
        '1'
    } else if d == 2 {
        '2'
    } else if d == 3 {
        '3'
    } else if d == 4 {
        '4'
    } else if d == 5 {
        '5'
    } else if d == 6 {
        '6'
    } else if d == 7 {
        '7'
    } else if d == 8 {
        '8'
    } else {
        '9'
    }
}

pub open spec fn is_digit(c: char) -> bool {
    c == '0' || c == '1' || c == '2' || c == '3' || c == '4' || c == '5' || c == '6' || c == '7'
        || c == '8' || c == '9'
}

/// The value of a decimal digit character; meaningful only when `is_digit(c)`.
pub open spec fn digit_val(c: char) -> int {
    if c == '0' {
        0
    } else if c == '1' {
        1
    } else if c == '2' {
        2
    } else if c == '3' {
        3
    } else if c == '4' {
        4
    } else if c == '5' {
        5
    } else if c == '6' {
        6
    } else if c == '7' {
        7
    } else if c == '8' {
        8
    } else {
        9
    }
}

pub proof fn lemma_digit_char_val(d: int)
    requires
        0 <= d <= 9,
    ensures
        is_digit(digit_char(d)),
        digit_val(digit_char(d)) == d,
{
}

/// A two-character zero-padded decimal rendering, for `n < 100`.
pub open spec fn two_digits(n: int) -> Seq<char> {
    seq![digit_char(n / 10), digit_char(n % 10)]
}

/// A four-character zero-padded decimal rendering, for `n < 10000`.
pub open spec fn four_digits(n: int) -> Seq<char> {
    seq![
        digit_char(n / 1000),
        digit_char((n / 100) % 10),
        digit_char((n / 10) % 10),
        digit_char(n % 10),
    ]
}

/// The eight-character `YYYYMMDD` rendering used in remote-ref filters and
/// fresh branch names.
pub open spec fn compact_date_chars(d: Date) -> Seq<char> {
    four_digits(d.year as int) + two_digits(d.month as int) + two_digits(d.day as int)
}

/// The `YYYY-MM-DD HH:MM:SS` rendering used when a branch record is shown.
pub open spec fn timestamp_chars(ts: Timestamp) -> Seq<char> {
    four_digits(ts.year as int) + seq!['-'] + two_digits(ts.month as int) + seq!['-'] + two_digits(
        ts.day as int,
    ) + seq![' '] + two_digits(ts.hour as int) + seq![':'] + two_digits(ts.minute as int)
        + seq![':'] + two_digits(ts.second as int)
}

pub fn char_to_digit(c: char) -> (r: Option<u32>)
    ensures
        r is Some <==> is_digit(c),
        r is Some ==> r->0 == digit_val(c) && r->0 <= 9,
{
    match c {
        '0' => Some(0),
        '1' => Some(1),
        '2' => Some(2),
        '3' => Some(3),
        '4' => Some(4),
        '5' => Some(5),
        '6' => Some(6),
        '7' => Some(7),
        '8' => Some(8),
        '9' => Some(9),
        _ => None,
    }
}

/// A one-character string slice holding the decimal digit `d`.
pub fn digit_str(d: u32) -> (r: &'static str)
    requires
        d <= 9,
    ensures
        r@ =~= seq![digit_char(d as int)],
{
    proof {
        reveal_strlit("0");
        reveal_strlit("1");
        reveal_strlit("2");
        reveal_strlit("3");
        reveal_strlit("4");
        reveal_strlit("5");
        reveal_strlit("6");
        reveal_strlit("7");
        reveal_strlit("8");
        reveal_strlit("9");
    }
    match d {
        0 => "0",
        1 => "1",
        2 => "2",
        3 => "3",
        4 => "4",
        5 => "5",
        6 => "6",
        7 => "7",
        8 => "8",
        _ => "9",
    }
}

/// Appends the two-character zero-padded rendering of `n`.
pub fn push_two_digits(s: &mut String, n: u32)
    requires
        n < 100,
    ensures
        final(s)@ == old(s)@ + two_digits(n as int),
{
    s.append(digit_str(n / 10));
    s.append(digit_str(n % 10));
    proof {
        assert(final(s)@ =~= old(s)@ + two_digits(n as int));
    }
}

/// Appends the four-character zero-padded rendering of `n`.
pub fn push_four_digits(s: &mut String, n: u32)
    requires
        n < 10000,
    ensures
        final(s)@ == old(s)@ + four_digits(n as int),
{
    s.append(digit_str(n / 1000));
    s.append(digit_str((n / 100) % 10));
    s.append(digit_str((n / 10) % 10));
    s.append(digit_str(n % 10));
    proof {
        assert(final(s)@ =~= old(s)@ + four_digits(n as int));
    }
}

impl Date {
    /// The `YYYYMMDD` form of this date.
    pub fn compact(self) -> (r: String)
        requires
            self.valid(),
        ensures
            r@ == compact_date_chars(self),
    {
        let mut s = String::new();
        push_four_digits(&mut s, self.year);
        push_two_digits(&mut s, self.month);
        push_two_digits(&mut s, self.day);
        proof {
            assert(s@ =~= compact_date_chars(self));
        }
        s
    }
}

impl Timestamp {
    /// The `YYYY-MM-DD HH:MM:SS` form of this timestamp.
    pub fn render(self) -> (r: String)
        requires
            self.valid(),
        ensures
            r@ == timestamp_chars(self),
    {
        let mut s = String::new();
        push_four_digits(&mut s, self.year);
        s.append("-");
        push_two_digits(&mut s, self.month);
        s.append("-");
        push_two_digits(&mut s, self.day);
        s.append(" ");
        push_two_digits(&mut s, self.hour);
        s.append(":");
        push_two_digits(&mut s, self.minute);
        s.append(":");
        push_two_digits(&mut s, self.second);
        proof {
            reveal_strlit("-");
            reveal_strlit(" ");
            reveal_strlit(":");
            assert(s@ =~= timestamp_chars(self));
        }
        s
    }
}

} // verus!
