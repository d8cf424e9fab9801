use vstd::prelude::*;
use vstd::string::*;

verus! {

/// Index of the first occurrence of `c` in `s`, or -1 when `c` is absent.
pub open spec fn first_index_of(s: Seq<char>, c: char) -> int
    decreases s.len(),
{
    if s.len() == 0 {
        -1
    } else if s[0] == c {
        0
    } else {
        let r = first_index_of(s.drop_first(), c);
        if r < 0 {
            -1
        } else {
            r + 1
        }
    }
}

pub proof fn lemma_first_index_of(s: Seq<char>, c: char)
    ensures
        first_index_of(s, c) == -1 ==> forall|j: int| 0 <= j < s.len() ==> s[j] != c,
        first_index_of(s, c) != -1 ==> 0 <= first_index_of(s, c) < s.len() && s[first_index_of(
            s,
            c,
        )] == c && forall|j: int| 0 <= j < first_index_of(s, c) ==> s[j] != c,
    decreases s.len(),
{
    if s.len() == 0 {
    } else if s[0] == c {
    } else {
        lemma_first_index_of(s.drop_first(), c);
        let r = first_index_of(s.drop_first(), c);
        if r == -1 {
            assert forall|j: int| 0 <= j < s.len() implies s[j] != c by {
                if j > 0 {
                    assert(s[j] == s.drop_first()[j - 1]);
                }
            }
        } else {
            assert(s[r + 1] == s.drop_first()[r]);
            assert forall|j: int| 0 <= j < r + 1 implies s[j] != c by {
                if j > 0 {
                    assert(s[j] == s.drop_first()[j - 1]);
                }
            }
        }
    }
}

/// The lines of `s`, split on `'\n'`, the current (still unterminated) line
/// carried in `cur`; a final line without a terminator still counts, a
/// trailing terminator adds no empty line.
pub open spec fn split_lines_from(s: Seq<char>, cur: Seq<char>) -> Seq<Seq<char>>
    decreases s.len(),
{
    if s.len() == 0 {
        if cur.len() == 0 {
            seq![]
        } else {
            seq![cur]
        }
    } else if s[0] == '\n' {
        seq![cur] + split_lines_from(s.drop_first(), seq![])
    } else {
        split_lines_from(s.drop_first(), cur.push(s[0]))
    }
}

/// The newline-separated lines of `s`.
pub open spec fn split_lines(s: Seq<char>) -> Seq<Seq<char>> {
    split_lines_from(s, seq![])
}

/// Whether `lit` occurs in `s` starting at position `at`.
pub open spec fn matches_at(s: Seq<char>, at: int, lit: Seq<char>) -> bool {
    0 <= at && at + lit.len() <= s.len() && s.subrange(at, at + lit.len() as int) == lit
}

pub fn find_char(s: &str, c: char) -> (r: Option<usize>)
    ensures
        match r {
            Some(i) => first_index_of(s@, c) == i,
            None => first_index_of(s@, c) == -1,
        },
{
    let n = s.unicode_len();
    let mut i: usize = 0;
    while i < n
        invariant
            n == s@.len(),
            i <= n,
            forall|j: int| 0 <= j < i ==> s@[j] != c,
        decreases n - i,
    {
        if s.get_char(i) == c {
            proof {
                lemma_first_index_of(s@, c);
            }
            return Some(i);
        }
        i += 1;
    }
    proof {
        lemma_first_index_of(s@, c);
    }
    None
}

pub fn matches_lit_at(s: &str, at: usize, lit: &str) -> (b: bool)
    requires
        at + lit@.len() <= s@.len() <= usize::MAX,
    ensures
        b == matches_at(s@, at as int, lit@),
{
    let m = lit.unicode_len();
    let mut j: usize = 0;
    while j < m
        invariant
            m == lit@.len(),
            j <= m,
            at + m <= s@.len() <= usize::MAX,
            forall|k: int| 0 <= k < j ==> s@[at + k] == lit@[k],
        decreases m - j,
    {
        if s.get_char(at + j) != lit.get_char(j) {
            proof {
                assert(s@.subrange(at as int, at as int + m as int)[j as int] == s@[at + j]);
            }
            return false;
        }
        j += 1;
    }
    proof {
        assert(s@.subrange(at as int, at as int + m as int) =~= lit@);
    }
    true
}

pub fn split_into_lines(s: &str) -> (lines: Vec<String>)
    ensures
        lines.deep_view() == split_lines(s@),
{
    let n = s.unicode_len();
    let mut lines: Vec<String> = Vec::new();
    let mut start: usize = 0;
    let mut i: usize = 0;
    proof {
        assert(s@.skip(0) =~= s@);
        assert(s@.subrange(0, 0) =~= Seq::<char>::empty());
        assert(lines.deep_view() =~= Seq::<Seq<char>>::empty());
        assert(lines.deep_view() + split_lines_from(s@.skip(0), s@.subrange(0, 0)) =~= split_lines(
            s@,
        ));
    }
    while i < n
        invariant
            n == s@.len(),
            start <= i <= n,
            split_lines(s@) == lines.deep_view() + split_lines_from(
                s@.skip(i as int),
                s@.subrange(start as int, i as int),
            ),
        decreases n - i,
    {
        let c = s.get_char(i);
        proof {
            assert(s@.skip(i as int)[0] == s@[i as int]);
            assert(s@.skip(i as int).drop_first() =~= s@.skip(i as int + 1));
        }
        if c == '\n' {
            let part = s.substring_char(start, i);
            let ghost old_dv = lines.deep_view();
            lines.push(part.to_owned());
            proof {
                assert(lines.deep_view() =~= old_dv.push(part@));
                assert(s@.subrange(i as int + 1, i as int + 1) =~= Seq::<char>::empty());
                assert(old_dv + (seq![part@] + split_lines_from(
                    s@.skip(i as int + 1),
                    Seq::<char>::empty(),
                )) =~= lines.deep_view() + split_lines_from(
                    s@.skip(i as int + 1),
                    s@.subrange(i as int + 1, i as int + 1),
                ));
            }
            start = i + 1;
        } else {
            proof {
                assert(s@.subrange(start as int, i as int).push(s@[i as int]) =~= s@.subrange(
                    start as int,
                    i as int + 1,
                ));
            }
        }
        i += 1;
    }
    proof {
        assert(s@.skip(n as int) =~= Seq::<char>::empty());
    }
    if start < n {
        let part = s.substring_char(start, n);
        let ghost old_dv = lines.deep_view();
        lines.push(part.to_owned());
        proof {
            assert(lines.deep_view() =~= old_dv.push(part@));
            assert(old_dv + seq![part@] =~= lines.deep_view());
        }
    }
    lines
}

} // verus!
