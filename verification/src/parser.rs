use vstd::prelude::*;
use vstd::string::*;

use crate::errors::ParseError;
use crate::record::BranchRecord;
use crate::text::find_char;
use crate::text::first_index_of;
use crate::text::lemma_first_index_of;
use crate::text::matches_at;
use crate::text::matches_lit_at;
use crate::text::split_into_lines;
use crate::text::split_lines;
use crate::timestamp::Timestamp;
use crate::timestamp::char_to_digit;
use crate::timestamp::digit_char;
use crate::timestamp::digit_val;
use crate::timestamp::is_digit;
use crate::timestamp::lemma_digit_char_val;
use crate::timestamp::timestamp_chars;
use crate::timestamp::two_digits;

verus! {

// A branch-listing line is one structured record: a two-field object whose
// fields are `name` and `committerdate`, optionally wrapped in one layer of
// single quotes. The scaffolding around the two field values is fixed, so a
// line is
//
//     {"name": "<name>", "committerdate": "<timestamp>"}
//
// where `<name>` is any run of characters without a double quote and
// `<timestamp>` has the fixed 25-character format `YYYY-MM-DD HH:MM:SS +HHMM`
// (a numeric UTC offset, parsed for validity and then dropped: records hold
// the naive local timestamp).
/// The ten characters before the branch name.
pub open spec fn record_prefix() -> Seq<char> {
    seq!['{', '"', 'n', 'a', 'm', 'e', '"', ':', ' ', '"']
}

/// The twenty-one characters between the branch name and the timestamp.
pub open spec fn record_mid() -> Seq<char> {
    seq![
        '"',
        ',',
        ' ',
        '"',
        'c',
        'o',
        'm',
        'm',
        'i',
        't',
        't',
        'e',
        'r',
        'd',
        'a',
        't',
        'e',
        '"',
        ':',
        ' ',
        '"',
    ]
}

/// The two characters after the timestamp.
pub open spec fn record_suffix() -> Seq<char> {
    seq!['"', '}']
}

/// Value of the two decimal digits at `s[i..i+2]`.
pub open spec fn two_val(s: Seq<char>, i: int) -> int {
    digit_val(s[i]) * 10 + digit_val(s[i + 1])
}

/// Value of the four decimal digits at `s[i..i+4]`.
pub open spec fn four_val(s: Seq<char>, i: int) -> int {
    digit_val(s[i]) * 1000 + digit_val(s[i + 1]) * 100 + digit_val(s[i + 2]) * 10 + digit_val(
        s[i + 3],
    )
}

/// Digits and separators of the fixed timestamp format, at position `at`.
pub open spec fn timestamp_shape_at(s: Seq<char>, at: int) -> bool {
    &&& is_digit(s[at]) && is_digit(s[at + 1]) && is_digit(s[at + 2]) && is_digit(s[at + 3])
    &&& s[at + 4] == '-'
    &&& is_digit(s[at + 5]) && is_digit(s[at + 6])
    &&& s[at + 7] == '-'
    &&& is_digit(s[at + 8]) && is_digit(s[at + 9])
    &&& s[at + 10] == ' '
    &&& is_digit(s[at + 11]) && is_digit(s[at + 12])
    &&& s[at + 13] == ':'
    &&& is_digit(s[at + 14]) && is_digit(s[at + 15])
    &&& s[at + 16] == ':'
    &&& is_digit(s[at + 17]) && is_digit(s[at + 18])
    &&& s[at + 19] == ' '
    &&& (s[at + 20] == '+' || s[at + 20] == '-')
    &&& is_digit(s[at + 21]) && is_digit(s[at + 22]) && is_digit(s[at + 23]) && is_digit(
        s[at + 24],
    )
}

/// The timestamp the digits at `at` spell, the offset dropped.
pub open spec fn timestamp_value_at(s: Seq<char>, at: int) -> Timestamp {
    Timestamp {
        year: four_val(s, at) as u32,
        month: two_val(s, at + 5) as u32,
        day: two_val(s, at + 8) as u32,
        hour: two_val(s, at + 11) as u32,
        minute: two_val(s, at + 14) as u32,
        second: two_val(s, at + 17) as u32,
    }
}

/// The UTC offset is well-formed: at most 23 hours and 59 minutes.
pub open spec fn offset_ok_at(s: Seq<char>, at: int) -> bool {
    two_val(s, at + 21) <= 23 && two_val(s, at + 23) <= 59
}

/// The timestamp written at position `at` of `s`, if the 25 characters
/// there match the fixed format and name a valid point in time.
pub open spec fn timestamp_at(s: Seq<char>, at: int) -> Option<Timestamp> {
    if 0 <= at && at + 25 <= s.len() && timestamp_shape_at(s, at) && timestamp_value_at(
        s,
        at,
    ).valid() && offset_ok_at(s, at) {
        Some(timestamp_value_at(s, at))
    } else {
        None
    }
}

/// One matching layer of single quotes is removed; anything else is kept.
pub open spec fn strip_wrapping_quote(line: Seq<char>) -> Seq<char> {
    if line.len() >= 2 && line[0] == '\'' && line[line.len() - 1] == '\'' {
        line.subrange(1, line.len() - 1)
    } else {
        line
    }
}

/// A branch name never carries a double quote; one would end the name field
/// early and the scaffolding check would reject the line.
pub open spec fn name_chars_ok(name: Seq<char>) -> bool {
    forall|j: int| 0 <= j < name.len() ==> name[j] != '"'
}

/// The fixed scaffolding of a record line, after quote stripping.
pub open spec fn record_structure_ok(s: Seq<char>) -> bool {
    &&& s.len() >= 58
    &&& matches_at(s, 0, record_prefix())
    &&& matches_at(s, s.len() - 48, record_mid())
    &&& matches_at(s, s.len() - 2, record_suffix())
    &&& name_chars_ok(s.subrange(10, s.len() - 48))
}

/// How one raw listing line parses.
pub enum RecordLineShape {
    /// Not a well-formed two-field record.
    Malformed,
    /// Well-formed structure, but the timestamp does not match the fixed
    /// format (or is out of range).
    BadTimestamp,
    /// A record with this name and this committer timestamp.
    Good { name: Seq<char>, stamp: Timestamp },
}

pub open spec fn classify_record_line(raw: Seq<char>) -> RecordLineShape {
    let s = strip_wrapping_quote(raw);
    if !record_structure_ok(s) {
        RecordLineShape::Malformed
    } else if timestamp_at(s, s.len() - 27) is None {
        RecordLineShape::BadTimestamp
    } else {
        RecordLineShape::Good {
            name: s.subrange(10, s.len() - 48),
            stamp: timestamp_at(s, s.len() - 27)->0,
        }
    }
}

/// The records of a sequence of listing lines, all-or-nothing: the first
/// bad line fails the whole listing. `idx` is the 1-based number of the
/// first line, carried into the error.
pub open spec fn parse_lines_spec(lines: Seq<Seq<char>>, idx: int) -> Result<
    Seq<(Seq<char>, Timestamp)>,
    ParseError,
>
    decreases lines.len(),
{
    if lines.len() == 0 {
        Ok(seq![])
    } else {
        match classify_record_line(lines[0]) {
            RecordLineShape::Malformed => Err(ParseError::MalformedRecord { line: idx as usize }),
            RecordLineShape::BadTimestamp => Err(
                ParseError::MalformedTimestamp { line: idx as usize },
            ),
            RecordLineShape::Good { name, stamp } => match parse_lines_spec(
                lines.drop_first(),
                idx + 1,
            ) {
                Ok(rest) => Ok(seq![(name, stamp)] + rest),
                Err(e) => Err(e),
            },
        }
    }
}

/// What `parse_branch_listing` returns, stated over the raw characters.
pub open spec fn parse_branch_listing_spec(raw: Seq<char>) -> Result<
    Seq<(Seq<char>, Timestamp)>,
    ParseError,
> {
    parse_lines_spec(split_lines(raw), 1)
}

pub open spec fn listing_result_view(r: Result<Vec<BranchRecord>, ParseError>) -> Result<
    Seq<(Seq<char>, Timestamp)>,
    ParseError,
> {
    match r {
        Ok(v) => Ok(v.deep_view()),
        Err(e) => Err(e),
    }
}

/// Reads the two digits at `at` as one number.
fn read_two(s: &str, at: usize) -> (r: Option<u32>)
    requires
        at + 2 <= s@.len() <= usize::MAX,
    ensures
        match r {
            Some(v) => is_digit(s@[at as int]) && is_digit(s@[at as int + 1]) && v == two_val(
                s@,
                at as int,
            ) && v <= 99,
            None => !(is_digit(s@[at as int]) && is_digit(s@[at as int + 1])),
        },
{
    let c0 = char_to_digit(s.get_char(at));
    let c1 = char_to_digit(s.get_char(at + 1));
    match (c0, c1) {
        (Some(a), Some(b)) => Some(a * 10 + b),
        _ => None,
    }
}

/// Reads the four digits at `at` as one number.
fn read_four(s: &str, at: usize) -> (r: Option<u32>)
    requires
        at + 4 <= s@.len() <= usize::MAX,
    ensures
        match r {
            Some(v) => is_digit(s@[at as int]) && is_digit(s@[at as int + 1]) && is_digit(
                s@[at as int + 2],
            ) && is_digit(s@[at as int + 3]) && v == four_val(s@, at as int) && v <= 9999,
            None => !(is_digit(s@[at as int]) && is_digit(s@[at as int + 1]) && is_digit(
                s@[at as int + 2],
            ) && is_digit(s@[at as int + 3])),
        },
{
    let c0 = char_to_digit(s.get_char(at));
    let c1 = char_to_digit(s.get_char(at + 1));
    let c2 = char_to_digit(s.get_char(at + 2));
    let c3 = char_to_digit(s.get_char(at + 3));
    match (c0, c1, c2, c3) {
        (Some(a), Some(b), Some(c), Some(d)) => Some(a * 1000 + b * 100 + c * 10 + d),
        _ => None,
    }
}

/// Parses the fixed-format timestamp written at position `at`.
pub fn parse_timestamp_at(s: &str, at: usize) -> (r: Option<Timestamp>)
    requires
        at + 25 <= s@.len() <= usize::MAX,
    ensures
        r == timestamp_at(s@, at as int),
{
    if s.get_char(at + 4) != '-' || s.get_char(at + 7) != '-' || s.get_char(at + 10) != ' '
        || s.get_char(at + 13) != ':' || s.get_char(at + 16) != ':' || s.get_char(at + 19) != ' ' {
        return None;
    }
    let sign = s.get_char(at + 20);
    if sign != '+' && sign != '-' {
        return None;
    }
    let year = match read_four(s, at) {
        Some(v) => v,
        None => {
            return None;
        },
    };
    let month = match read_two(s, at + 5) {
        Some(v) => v,
        None => {
            return None;
        },
    };
    let day = match read_two(s, at + 8) {
        Some(v) => v,
        None => {
            return None;
        },
    };
    let hour = match read_two(s, at + 11) {
        Some(v) => v,
        None => {
            return None;
        },
    };
    let minute = match read_two(s, at + 14) {
        Some(v) => v,
        None => {
            return None;
        },
    };
    let second = match read_two(s, at + 17) {
        Some(v) => v,
        None => {
            return None;
        },
    };
    let off_h = match read_two(s, at + 21) {
        Some(v) => v,
        None => {
            return None;
        },
    };
    let off_m = match read_two(s, at + 23) {
        Some(v) => v,
        None => {
            return None;
        },
    };
    if off_h > 23 || off_m > 59 {
        return None;
    }
    let ts = Timestamp { year, month, day, hour, minute, second };
    if !ts.check_valid() {
        return None;
    }
    Some(ts)
}

/// Why one listing line was rejected.
#[derive(Clone, Copy, PartialEq, Eq, Structural, Debug)]
pub enum RecordLineIssue {
    Malformed,
    BadTimestamp,
}

/// Parses one raw listing line into a record.
pub fn parse_record_line(line: &str) -> (r: Result<BranchRecord, RecordLineIssue>)
    ensures
        match r {
            Ok(rec) => classify_record_line(line@) == (RecordLineShape::Good {
                name: rec.name@,
                stamp: rec.committer_timestamp,
            }),
            Err(RecordLineIssue::Malformed) => classify_record_line(line@)
                is Malformed,
            Err(RecordLineIssue::BadTimestamp) => classify_record_line(line@)
                is BadTimestamp,
        },
{
    let n = line.unicode_len();
    let stripped: &str = if n >= 2 && line.get_char(0) == '\'' && line.get_char(n - 1) == '\'' {
        line.substring_char(1, n - 1)
    } else {
        line
    };
    proof {
        assert(stripped@ == strip_wrapping_quote(line@));
    }
    let l = stripped.unicode_len();
    if l < 58 {
        return Err(RecordLineIssue::Malformed);
    }
    proof {
        reveal_strlit("{\"name\": \"");
        assert(("{\"name\": \"")@ =~= record_prefix());
        reveal_strlit("\", \"committerdate\": \"");
        assert(("\", \"committerdate\": \"")@ =~= record_mid());
        reveal_strlit("\"}");
        assert(("\"}")@ =~= record_suffix());
    }
    if !matches_lit_at(stripped, 0, "{\"name\": \"") {
        return Err(RecordLineIssue::Malformed);
    }
    if !matches_lit_at(stripped, l - 48, "\", \"committerdate\": \"") {
        return Err(RecordLineIssue::Malformed);
    }
    if !matches_lit_at(stripped, l - 2, "\"}") {
        return Err(RecordLineIssue::Malformed);
    }
    let mut j: usize = 10;
    while j < l - 48
        invariant
            58 <= l,
            l == stripped@.len() <= usize::MAX,
            stripped@ == strip_wrapping_quote(line@),
            10 <= j <= l - 48,
            forall|k: int| 10 <= k < j ==> stripped@[k] != '"',
        decreases l - 48 - j,
    {
        if stripped.get_char(j) == '"' {
            proof {
                assert(stripped@.subrange(10, l as int - 48)[j - 10] == stripped@[j as int]);
            }
            return Err(RecordLineIssue::Malformed);
        }
        j += 1;
    }
    proof {
        assert forall|k: int| 0 <= k < stripped@.subrange(10, l as int - 48).len() implies (
        #[trigger] stripped@.subrange(10, l as int - 48)[k]) != '"' by {
            assert(stripped@.subrange(10, l as int - 48)[k] == stripped@[k + 10]);
        }
        assert(record_structure_ok(stripped@));
    }
    let stamp = match parse_timestamp_at(stripped, l - 27) {
        Some(t) => t,
        None => {
            return Err(RecordLineIssue::BadTimestamp);
        },
    };
    let name = stripped.substring_char(10, l - 48).to_owned();
    Ok(BranchRecord { name, committer_timestamp: stamp })
}

/// Parses raw branch-listing output: one record per line, in input order,
/// or the first line's parse error. Never both: a malformed listing yields
/// no records at all.
pub fn parse_branch_listing(raw: &str) -> (r: Result<Vec<BranchRecord>, ParseError>)
    ensures
        listing_result_view(r) == parse_branch_listing_spec(raw@),
{
    let lines = split_into_lines(raw);
    let ghost all = lines.deep_view();
    let mut records: Vec<BranchRecord> = Vec::new();
    let mut i: usize = 0;
    proof {
        assert(all.skip(0) =~= all);
        assert(records.deep_view() =~= Seq::<(Seq<char>, Timestamp)>::empty());
    }
    while i < lines.len()
        invariant
            i <= lines.len(),
            all == lines.deep_view(),
            all == split_lines(raw@),
            all.len() == lines@.len(),
            match parse_lines_spec(all.skip(i as int), i as int + 1) {
                Ok(rest) => parse_lines_spec(all, 1) == Ok::<_, ParseError>(
                    records.deep_view() + rest,
                ),
                Err(e) => parse_lines_spec(all, 1) == Err::<Seq<(Seq<char>, Timestamp)>, _>(e),
            },
        decreases lines.len() - i,
    {
        proof {
            assert(all[i as int] == lines@[i as int]@);
            assert(all.skip(i as int)[0] == all[i as int]);
            assert(all.skip(i as int).drop_first() =~= all.skip(i as int + 1));
        }
        match parse_record_line(lines[i].as_str()) {
            Ok(rec) => {
                let ghost old_dv = records.deep_view();
                records.push(rec);
                proof {
                    assert(records.deep_view() =~= old_dv.push(
                        (rec.name@, rec.committer_timestamp),
                    ));
                    match parse_lines_spec(all.skip(i as int + 1), i as int + 2) {
                        Ok(rest) => {
                            assert(old_dv + (seq![(rec.name@, rec.committer_timestamp)] + rest)
                                =~= records.deep_view() + rest);
                        },
                        Err(_) => {},
                    }
                }
            },
            Err(issue) => {
                let e = match issue {
                    RecordLineIssue::Malformed => ParseError::MalformedRecord { line: i + 1 },
                    RecordLineIssue::BadTimestamp => ParseError::MalformedTimestamp {
                        line: i + 1,
                    },
                };
                return Err(e);
            },
        }
        i += 1;
    }
    proof {
        assert(all.skip(i as int) =~= Seq::<Seq<char>>::empty());
        assert(records.deep_view() + Seq::<(Seq<char>, Timestamp)>::empty() =~= records.deep_view());
    }
    Ok(records)
}

/// The flat branch names of a sequence of `<marker><space><name>` lines:
/// the fixed two-character prefix is stripped from each, a shorter line is
/// a parse error.
pub open spec fn flat_lines_spec(lines: Seq<Seq<char>>, idx: int) -> Result<
    Seq<Seq<char>>,
    ParseError,
>
    decreases lines.len(),
{
    if lines.len() == 0 {
        Ok(seq![])
    } else if lines[0].len() < 2 {
        Err(ParseError::ShortLine { line: idx as usize })
    } else {
        match flat_lines_spec(lines.drop_first(), idx + 1) {
            Ok(rest) => Ok(seq![lines[0].skip(2)] + rest),
            Err(e) => Err(e),
        }
    }
}

/// What `parse_local_branches` returns, stated over the raw characters.
pub open spec fn parse_local_branches_spec(raw: Seq<char>) -> Result<Seq<Seq<char>>, ParseError> {
    flat_lines_spec(split_lines(raw), 1)
}

pub open spec fn flat_result_view(r: Result<Vec<String>, ParseError>) -> Result<
    Seq<Seq<char>>,
    ParseError,
> {
    match r {
        Ok(v) => Ok(v.deep_view()),
        Err(e) => Err(e),
    }
}

/// Parses flat local-branch-listing output: each line is a two-character
/// marker prefix followed by the branch name.
pub fn parse_local_branches(raw: &str) -> (r: Result<Vec<String>, ParseError>)
    ensures
        flat_result_view(r) == parse_local_branches_spec(raw@),
{
    let lines = split_into_lines(raw);
    let ghost all = lines.deep_view();
    let mut names: Vec<String> = Vec::new();
    let mut i: usize = 0;
    proof {
        assert(all.skip(0) =~= all);
        assert(names.deep_view() =~= Seq::<Seq<char>>::empty());
    }
    while i < lines.len()
        invariant
            i <= lines.len(),
            all == lines.deep_view(),
            all == split_lines(raw@),
            all.len() == lines@.len(),
            match flat_lines_spec(all.skip(i as int), i as int + 1) {
                Ok(rest) => parse_local_branches_spec_partial(all, names.deep_view(), rest),
                Err(e) => flat_lines_spec(all, 1) == Err::<Seq<Seq<char>>, _>(e),
            },
        decreases lines.len() - i,
    {
        proof {
            assert(all[i as int] == lines@[i as int]@);
            assert(all.skip(i as int)[0] == all[i as int]);
            assert(all.skip(i as int).drop_first() =~= all.skip(i as int + 1));
        }
        let line = lines[i].as_str();
        let ll = line.unicode_len();
        if ll < 2 {
            return Err(ParseError::ShortLine { line: i + 1 });
        }
        let part = line.substring_char(2, ll);
        let ghost old_dv = names.deep_view();
        names.push(part.to_owned());
        proof {
            assert(names.deep_view() =~= old_dv.push(all[i as int].skip(2)));
            match flat_lines_spec(all.skip(i as int + 1), i as int + 2) {
                Ok(rest) => {
                    assert(old_dv + (seq![all[i as int].skip(2)] + rest) =~= names.deep_view()
                        + rest);
                },
                Err(_) => {},
            }
        }
        i += 1;
    }
    proof {
        assert(all.skip(i as int) =~= Seq::<Seq<char>>::empty());
        assert(names.deep_view() + Seq::<Seq<char>>::empty() =~= names.deep_view());
    }
    Ok(names)
}

/// The running invariant of `parse_local_branches`: the names taken so far
/// and the rest of the lines together make the whole answer.
pub open spec fn parse_local_branches_spec_partial(
    all: Seq<Seq<char>>,
    done: Seq<Seq<char>>,
    rest: Seq<Seq<char>>,
) -> bool {
    flat_lines_spec(all, 1) == Ok::<_, ParseError>(done + rest)
}

/// The timestamp field as it stands in a listing line: the naive timestamp
/// followed by a numeric UTC offset.
pub open spec fn timestamp_body_chars(ts: Timestamp, sign: char, ohh: int, omm: int) -> Seq<char> {
    timestamp_chars(ts) + seq![' ', sign] + two_digits(ohh) + two_digits(omm)
}

/// A whole well-formed record line for a name, a timestamp, and an offset.
pub open spec fn record_line_chars(
    name: Seq<char>,
    ts: Timestamp,
    sign: char,
    ohh: int,
    omm: int,
) -> Seq<char> {
    record_prefix() + name + record_mid() + timestamp_body_chars(ts, sign, ohh, omm)
        + record_suffix()
}

/// The timestamp field parses back, on its own, to exactly the naive
/// timestamp it was written from.
#[verifier::rlimit(100)]
#[verifier::spinoff_prover]
proof fn lemma_timestamp_body_parses(ts: Timestamp, sign: char, ohh: int, omm: int)
    requires
        ts.valid(),
        sign == '+' || sign == '-',
        0 <= ohh <= 23,
        0 <= omm <= 59,
    ensures
        timestamp_body_chars(ts, sign, ohh, omm).len() == 25,
        timestamp_at(timestamp_body_chars(ts, sign, ohh, omm), 0) == Some(ts),
{
    let tsb = timestamp_body_chars(ts, sign, ohh, omm);
    let y = ts.year as int;
    let mo = ts.month as int;
    let d = ts.day as int;
    let h = ts.hour as int;
    let mi = ts.minute as int;
    let se = ts.second as int;
    lemma_digit_char_val(y / 1000);
    lemma_digit_char_val((y / 100) % 10);
    lemma_digit_char_val((y / 10) % 10);
    lemma_digit_char_val(y % 10);
    lemma_digit_char_val(mo / 10);
    lemma_digit_char_val(mo % 10);
    lemma_digit_char_val(d / 10);
    lemma_digit_char_val(d % 10);
    lemma_digit_char_val(h / 10);
    lemma_digit_char_val(h % 10);
    lemma_digit_char_val(mi / 10);
    lemma_digit_char_val(mi % 10);
    lemma_digit_char_val(se / 10);
    lemma_digit_char_val(se % 10);
    lemma_digit_char_val(ohh / 10);
    lemma_digit_char_val(ohh % 10);
    lemma_digit_char_val(omm / 10);
    lemma_digit_char_val(omm % 10);
    assert(tsb =~= seq![
        digit_char(y / 1000),
        digit_char((y / 100) % 10),
        digit_char((y / 10) % 10),
        digit_char(y % 10),
        '-',
        digit_char(mo / 10),
        digit_char(mo % 10),
        '-',
        digit_char(d / 10),
        digit_char(d % 10),
        ' ',
        digit_char(h / 10),
        digit_char(h % 10),
        ':',
        digit_char(mi / 10),
        digit_char(mi % 10),
        ':',
        digit_char(se / 10),
        digit_char(se % 10),
        ' ',
        sign,
        digit_char(ohh / 10),
        digit_char(ohh % 10),
        digit_char(omm / 10),
        digit_char(omm % 10),
    ]);
    assert(timestamp_shape_at(tsb, 0));
    assert(four_val(tsb, 0) == y);
    assert(two_val(tsb, 5) == mo);
    assert(two_val(tsb, 8) == d);
    assert(two_val(tsb, 11) == h);
    assert(two_val(tsb, 14) == mi);
    assert(two_val(tsb, 17) == se);
    assert(two_val(tsb, 21) == ohh);
    assert(two_val(tsb, 23) == omm);
    assert(timestamp_value_at(tsb, 0) == ts);
    assert(offset_ok_at(tsb, 0));
}

/// What the fixed timestamp format says at `at` depends only on the 25
/// characters there.
proof fn lemma_timestamp_at_transfer(s: Seq<char>, at: int, t: Seq<char>)
    requires
        0 <= at,
        at + 25 <= s.len(),
        t.len() == 25,
        s.subrange(at, at + 25) == t,
    ensures
        timestamp_at(s, at) == timestamp_at(t, 0),
{
    assert forall|k: int| 0 <= k < 25 implies s[at + k] == t[k] by {
        assert(s.subrange(at, at + 25)[k] == s[at + k]);
    }
    assert(timestamp_shape_at(s, at) == timestamp_shape_at(t, 0));
    assert(timestamp_shape_at(t, 0) ==> timestamp_value_at(s, at) == timestamp_value_at(t, 0)
        && offset_ok_at(s, at) == offset_ok_at(t, 0));
}

/// Law: a line written in the record format parses back to exactly the name
/// and the naive timestamp it was written from; the offset is validated and
/// dropped. With `lemma_listing_complete`, a listing of well-formed lines
/// parses to records matching their source lines, in order.
#[verifier::rlimit(100)]
#[verifier::spinoff_prover]
pub proof fn lemma_record_line_roundtrip(
    name: Seq<char>,
    ts: Timestamp,
    sign: char,
    ohh: int,
    omm: int,
)
    requires
        name_chars_ok(name),
        ts.valid(),
        sign == '+' || sign == '-',
        0 <= ohh <= 23,
        0 <= omm <= 59,
    ensures
        classify_record_line(record_line_chars(name, ts, sign, ohh, omm))
            == (RecordLineShape::Good { name, stamp: ts }),
{
    let tsb = timestamp_body_chars(ts, sign, ohh, omm);
    let g = record_line_chars(name, ts, sign, ohh, omm);
    lemma_timestamp_body_parses(ts, sign, ohh, omm);
    let l = g.len() as int;
    assert(l == 58 + name.len());
    assert(g[0] == '{');
    assert(strip_wrapping_quote(g) == g);
    assert(g.subrange(0, 10) =~= record_prefix());
    assert(g.subrange(l - 48, l - 27) =~= record_mid());
    assert(g.subrange(l - 2, l) =~= record_suffix());
    assert(g.subrange(10, l - 48) =~= name);
    assert(g.subrange(l - 27, l - 2) =~= tsb);
    assert(record_structure_ok(g));
    lemma_timestamp_at_transfer(g, l - 27, tsb);
    assert(timestamp_at(g, l - 27) == Some(ts));
}

/// Law: a listing whose lines are all well-formed parses completely: one
/// record per line, in input order, each line classifying to exactly the
/// name and timestamp of its record.
pub proof fn lemma_listing_complete(lines: Seq<Seq<char>>, idx: int)
    requires
        forall|i: int|
            0 <= i < lines.len() ==> (#[trigger] classify_record_line(lines[i])) is Good,
    ensures
        ({
            let r = parse_lines_spec(lines, idx);
            &&& r is Ok
            &&& (r matches Ok(recs) ==> recs.len() == lines.len() && forall|i: int|
                0 <= i < lines.len() ==> classify_record_line(lines[i])
                    == (RecordLineShape::Good {
                    name: (#[trigger] recs[i]).0,
                    stamp: recs[i].1,
                }))
        }),
    decreases lines.len(),
{
    if lines.len() == 0 {
    } else {
        assert(classify_record_line(lines[0]) is Good);
        assert forall|i: int| 0 <= i < lines.drop_first().len() implies (
        #[trigger] classify_record_line(lines.drop_first()[i])) is Good by {
            assert(lines.drop_first()[i] == lines[i + 1]);
        }
        lemma_listing_complete(lines.drop_first(), idx + 1);
        let r = parse_lines_spec(lines, idx);
        let rest = parse_lines_spec(lines.drop_first(), idx + 1);
        match classify_record_line(lines[0]) {
            RecordLineShape::Good { name, stamp } => {
                match rest {
                    Ok(recs0) => {
                        let recs = seq![(name, stamp)] + recs0;
                        assert(r == Ok::<_, ParseError>(recs));
                        assert forall|i: int| 0 <= i < lines.len() implies classify_record_line(
                            lines[i],
                        ) == (RecordLineShape::Good {
                            name: (#[trigger] recs[i]).0,
                            stamp: recs[i].1,
                        }) by {
                            if i > 0 {
                                assert(lines.drop_first()[i - 1] == lines[i]);
                                assert(recs[i] == recs0[i - 1]);
                            }
                        }
                    },
                    Err(_) => {
                        assert(false);
                    },
                }
            },
            _ => {
                assert(false);
            },
        }
    }
}

/// Law: one bad line fails the whole listing; no records are produced for
/// any line of a listing holding a malformed record or timestamp.
pub proof fn lemma_listing_all_or_nothing(lines: Seq<Seq<char>>, idx: int, bad: int)
    requires
        0 <= bad < lines.len(),
        !(classify_record_line(lines[bad]) is Good),
    ensures
        parse_lines_spec(lines, idx) is Err,
    decreases lines.len(),
{
    if bad == 0 {
    } else {
        match classify_record_line(lines[0]) {
            RecordLineShape::Good { name, stamp } => {
                assert(lines.drop_first()[bad - 1] == lines[bad]);
                lemma_listing_all_or_nothing(lines.drop_first(), idx + 1, bad - 1);
            },
            _ => {},
        }
    }
}

/// Every record of a successful parse carries a valid timestamp.
pub proof fn lemma_listing_timestamps_valid(lines: Seq<Seq<char>>, idx: int)
    ensures
        parse_lines_spec(lines, idx) matches Ok(recs) ==> forall|i: int|
            0 <= i < recs.len() ==> (#[trigger] recs[i]).1.valid(),
    decreases lines.len(),
{
    if lines.len() == 0 {
    } else {
        lemma_listing_timestamps_valid(lines.drop_first(), idx + 1);
        match classify_record_line(lines[0]) {
            RecordLineShape::Good { name, stamp } => {
                match parse_lines_spec(lines.drop_first(), idx + 1) {
                    Ok(recs0) => {
                        let recs = seq![(name, stamp)] + recs0;
                        assert forall|i: int| 0 <= i < recs.len() implies (
                        #[trigger] recs[i]).1.valid() by {
                            if i > 0 {
                                assert(recs[i] == recs0[i - 1]);
                            }
                        }
                    },
                    Err(_) => {},
                }
            },
            _ => {},
        }
    }
}

/// The most recent matching remote ref of raw remote-listing output: the
/// second tab-separated field of the first line, when the first line has at
/// least two such fields.
pub open spec fn remote_head_spec(raw: Seq<char>) -> Option<Seq<char>> {
    let nl = first_index_of(raw, '\n');
    let first = if nl < 0 {
        raw
    } else {
        raw.take(nl)
    };
    let t1 = first_index_of(first, '\t');
    if t1 < 0 {
        None
    } else {
        let rest = first.skip(t1 + 1);
        let t2 = first_index_of(rest, '\t');
        if t2 < 0 {
            Some(rest)
        } else {
            Some(rest.take(t2))
        }
    }
}

pub open spec fn opt_string_view(r: Option<String>) -> Option<Seq<char>> {
    match r {
        Some(s) => Some(s@),
        None => None,
    }
}

/// Extracts the ref path from remote-listing output sorted most recent
/// first: the listing's own descending version-aware order decides which
/// ref is first, this function only reads it off.
pub fn parse_remote_head(raw: &str) -> (r: Option<String>)
    ensures
        opt_string_view(r) == remote_head_spec(raw@),
{
    let n = raw.unicode_len();
    let first: &str = match find_char(raw, '\n') {
        Some(nl) => {
            proof {
                lemma_first_index_of(raw@, '\n');
            }
            raw.substring_char(0, nl)
        },
        None => raw,
    };
    proof {
        assert(first@ == (if first_index_of(raw@, '\n') < 0 {
            raw@
        } else {
            raw@.take(first_index_of(raw@, '\n'))
        }));
    }
    let fl = first.unicode_len();
    let t1 = match find_char(first, '\t') {
        Some(t) => t,
        None => {
            return None;
        },
    };
    proof {
        lemma_first_index_of(first@, '\t');
    }
    let rest: &str = first.substring_char(t1 + 1, fl);
    let out: &str = match find_char(rest, '\t') {
        Some(t2) => {
            proof {
                lemma_first_index_of(rest@, '\t');
            }
            rest.substring_char(0, t2)
        },
        None => rest,
    };
    Some(out.to_owned())
}

} // verus!
