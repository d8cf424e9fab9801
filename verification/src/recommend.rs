use vstd::prelude::*;
use vstd::string::*;

use crate::errors::ParseError;
use crate::parser::parse_remote_head;
use crate::parser::remote_head_spec;
use crate::text::find_char;
use crate::text::first_index_of;
use crate::text::lemma_first_index_of;
use crate::text::matches_at;
use crate::text::matches_lit_at;
use crate::timestamp::Date;
use crate::timestamp::char_to_digit;
use crate::timestamp::compact_date_chars;
use crate::timestamp::digit_char;
use crate::timestamp::digit_str;
use crate::timestamp::digit_val;
use crate::timestamp::is_digit;

verus! {

/// The fixed reference prefix of remote branch refs.
pub open spec fn refs_heads_chars() -> Seq<char> {
    seq!['r', 'e', 'f', 's', '/', 'h', 'e', 'a', 'd', 's', '/']
}

/// All characters are decimal digits.
pub open spec fn all_digits(s: Seq<char>) -> bool {
    forall|j: int| 0 <= j < s.len() ==> is_digit(s[j])
}

/// The number a digit string spells, most significant digit first.
pub open spec fn dec_val(s: Seq<char>) -> int
    decreases s.len(),
{
    if s.len() == 0 {
        0
    } else {
        dec_val(s.drop_last()) * 10 + digit_val(s.last())
    }
}

/// The decimal rendering of `n`, without leading zeros.
pub open spec fn dec_chars(n: int) -> Seq<char>
    decreases n,
{
    if n < 10 {
        seq![digit_char(n)]
    } else {
        dec_chars(n / 10).push(digit_char(n % 10))
    }
}

pub proof fn lemma_dec_val_nonneg(s: Seq<char>)
    ensures
        dec_val(s) >= 0,
    decreases s.len(),
{
    if s.len() > 0 {
        lemma_dec_val_nonneg(s.drop_last());
    }
}

/// A digit string is worth at least any of its prefixes.
pub proof fn lemma_dec_val_prefix(s: Seq<char>, j: int)
    requires
        0 <= j <= s.len(),
    ensures
        dec_val(s.take(j)) <= dec_val(s),
    decreases s.len() - j,
{
    if j == s.len() {
        assert(s.take(j) =~= s);
    } else {
        lemma_dec_val_prefix(s, j + 1);
        assert(s.take(j + 1).drop_last() =~= s.take(j));
        assert(s.take(j + 1).last() == s[j]);
        lemma_dec_val_nonneg(s.take(j));
    }
}

/// The filter pattern `refs/heads/<stage>/<YYYYMMDD>*` that asks the remote
/// for today's builds of a stage.
pub open spec fn remote_filter_chars(stage: Seq<char>, today: Date) -> Seq<char> {
    refs_heads_chars() + stage + seq!['/'] + compact_date_chars(today) + seq!['*']
}

pub fn remote_filter(stage: &str, today: Date) -> (r: String)
    requires
        today.valid(),
    ensures
        r@ == remote_filter_chars(stage@, today),
{
    let mut s = String::from_str("refs/heads/");
    s.append(stage);
    s.append("/");
    let compact = today.compact();
    s.append(compact.as_str());
    s.append("*");
    proof {
        reveal_strlit("refs/heads/");
        reveal_strlit("/");
        reveal_strlit("*");
        assert(("refs/heads/")@ =~= refs_heads_chars());
        assert(s@ =~= remote_filter_chars(stage@, today));
    }
    s
}

/// The known reference prefix of a matched remote ref for a stage:
/// `refs/heads/<stage>/`.
pub open spec fn known_prefix(stage: Seq<char>) -> Seq<char> {
    refs_heads_chars() + stage + seq!['/']
}

/// The matched ref with the known reference prefix stripped, when it
/// carries one.
pub open spec fn strip_known_prefix(r: Seq<char>, stage: Seq<char>) -> Seq<char> {
    if matches_at(r, 0, known_prefix(stage)) {
        r.skip(known_prefix(stage).len() as int)
    } else {
        r
    }
}

/// The next candidate branch name.
///
/// With no remote match, the first build of the day:
/// `<stage>/<YYYYMMDD>.1`. With a match, its name must split into exactly
/// two dot-delimited segments after prefix stripping; the second must be a
/// base-10 counter, which is incremented by exactly one. Anything else is a
/// fatal parse error, never repaired.
pub open spec fn next_name_spec(stage: Seq<char>, today: Date, matched: Option<Seq<char>>) -> Result<
    Seq<char>,
    ParseError,
> {
    match matched {
        Option::None => Ok(stage + seq!['/'] + compact_date_chars(today) + seq!['.', '1']),
        Option::Some(m) => {
            let name = strip_known_prefix(m, stage);
            let d1 = first_index_of(name, '.');
            if d1 < 0 {
                Err(ParseError::VersionSegmentCount)
            } else {
                let major = name.take(d1);
                let minor = name.skip(d1 + 1);
                if first_index_of(minor, '.') >= 0 {
                    Err(ParseError::VersionSegmentCount)
                } else if !(minor.len() > 0 && all_digits(minor)) {
                    Err(ParseError::VersionNotNumeric)
                } else if dec_val(minor) >= u64::MAX {
                    Err(ParseError::VersionCounterOverflow)
                } else {
                    Ok(major + seq!['.'] + dec_chars(dec_val(minor) + 1))
                }
            }
        },
    }
}

pub open spec fn name_result_view(r: Result<String, ParseError>) -> Result<Seq<char>, ParseError> {
    match r {
        Ok(s) => Ok(s@),
        Err(e) => Err(e),
    }
}

pub open spec fn opt_str_view(m: Option<&str>) -> Option<Seq<char>> {
    match m {
        Option::Some(s) => Some(s@),
        Option::None => None,
    }
}

/// Renders `n` in decimal.
pub fn u64_to_decimal(n: u64) -> (r: String)
    ensures
        r@ == dec_chars(n as int),
    decreases n,
{
    if n < 10 {
        let mut s = String::new();
        s.append(digit_str(n as u32));
        proof {
            assert(s@ =~= dec_chars(n as int));
        }
        s
    } else {
        let mut s = u64_to_decimal(n / 10);
        s.append(digit_str((n % 10) as u32));
        proof {
            assert(s@ =~= dec_chars(n as int));
        }
        s
    }
}

fn check_all_digits(s: &str) -> (b: bool)
    ensures
        b == all_digits(s@),
{
    let n = s.unicode_len();
    let mut i: usize = 0;
    while i < n
        invariant
            n == s@.len(),
            i <= n,
            forall|j: int| 0 <= j < i ==> is_digit(s@[j]),
        decreases n - i,
    {
        if char_to_digit(s.get_char(i)).is_none() {
            return false;
        }
        i += 1;
    }
    true
}

/// Reads a digit string as a counter that can still be incremented; a value
/// of `u64::MAX` or more is reported as out of range.
fn parse_counter(s: &str) -> (r: Option<u64>)
    requires
        all_digits(s@),
    ensures
        match r {
            Some(v) => v == dec_val(s@) && v < u64::MAX,
            None => dec_val(s@) >= u64::MAX,
        },
{
    let n = s.unicode_len();
    let mut acc: u64 = 0;
    let mut i: usize = 0;
    proof {
        assert(s@.take(0) =~= Seq::<char>::empty());
    }
    while i < n
        invariant
            n == s@.len(),
            i <= n,
            all_digits(s@),
            acc == dec_val(s@.take(i as int)),
            acc < u64::MAX,
        decreases n - i,
    {
        let c = s.get_char(i);
        let d = char_to_digit(c).unwrap();
        let wide: u128 = (acc as u128) * 10 + (d as u128);
        proof {
            assert(s@.take(i as int + 1).drop_last() =~= s@.take(i as int));
            assert(s@.take(i as int + 1).last() == s@[i as int]);
        }
        if wide >= u64::MAX as u128 {
            proof {
                lemma_dec_val_prefix(s@, i as int + 1);
            }
            return None;
        }
        acc = wide as u64;
        i += 1;
    }
    proof {
        assert(s@.take(n as int) =~= s@);
    }
    Some(acc)
}

/// The next candidate branch name for `stage` on `today`, given the most
/// recent matching remote ref, when one exists; see [`next_name_spec`] for
/// the exact statement.
pub fn next_branch_name(stage: &str, today: Date, matched: Option<&str>) -> (r: Result<
    String,
    ParseError,
>)
    requires
        today.valid(),
    ensures
        name_result_view(r) == next_name_spec(stage@, today, opt_str_view(matched)),
{
    match matched {
        None => {
            let mut s = stage.to_owned();
            s.append("/");
            let compact = today.compact();
            s.append(compact.as_str());
            s.append(".1");
            proof {
                reveal_strlit("/");
                reveal_strlit(".1");
                assert(s@ =~= stage@ + seq!['/'] + compact_date_chars(today) + seq!['.', '1']);
            }
            Ok(s)
        },
        Some(m) => {
            let ml = m.unicode_len();
            let mut prefix = String::from_str("refs/heads/");
            prefix.append(stage);
            prefix.append("/");
            proof {
                reveal_strlit("refs/heads/");
                reveal_strlit("/");
                assert(("refs/heads/")@ =~= refs_heads_chars());
                assert(prefix@ =~= known_prefix(stage@));
            }
            let plen = prefix.as_str().unicode_len();
            let name: &str = if ml >= plen && matches_lit_at(m, 0, prefix.as_str()) {
                m.substring_char(plen, ml)
            } else {
                m
            };
            proof {
                assert(name@ =~= strip_known_prefix(m@, stage@));
            }
            let nl = name.unicode_len();
            let d1 = match find_char(name, '.') {
                Some(d) => d,
                None => {
                    return Err(ParseError::VersionSegmentCount);
                },
            };
            proof {
                lemma_first_index_of(name@, '.');
            }
            let major: &str = name.substring_char(0, d1);
            let minor: &str = name.substring_char(d1 + 1, nl);
            proof {
                assert(major@ =~= name@.take(d1 as int));
                assert(minor@ =~= name@.skip(d1 as int + 1));
            }
            if find_char(minor, '.').is_some() {
                return Err(ParseError::VersionSegmentCount);
            }
            let minor_len = minor.unicode_len();
            if minor_len == 0 || !check_all_digits(minor) {
                return Err(ParseError::VersionNotNumeric);
            }
            let v = match parse_counter(minor) {
                Some(v) => v,
                None => {
                    return Err(ParseError::VersionCounterOverflow);
                },
            };
            let mut s = major.to_owned();
            s.append(".");
            let inc = u64_to_decimal(v + 1);
            s.append(inc.as_str());
            proof {
                reveal_strlit(".");
                assert(s@ =~= major@ + seq!['.'] + dec_chars(v as int + 1));
            }
            Ok(s)
        },
    }
}

/// The whole recommendation decision on raw remote-listing output: the
/// most recent matching ref is read off the listing (or found absent), and
/// the next candidate name computed from it.
pub fn recommend_from_listing(stage: &str, today: Date, raw_listing: &str) -> (r: Result<
    String,
    ParseError,
>)
    requires
        today.valid(),
    ensures
        name_result_view(r) == next_name_spec(stage@, today, remote_head_spec(raw_listing@)),
{
    match parse_remote_head(raw_listing) {
        Some(m) => next_branch_name(stage, today, Some(m.as_str())),
        None => next_branch_name(stage, today, None),
    }
}

} // verus!
