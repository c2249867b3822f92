//! Parsers for the identifiers and numbers that appear in record fields:
//! catalog ids, IMDb ids and season numbers.
use vstd::prelude::*;
use crate::text::{chars_of, chars_eq, string_of, trim_chars, trim, lower, is_digit, slice_chars};

verus! {

pub open spec fn all_digits(s: Seq<char>) -> bool {
    forall|i: int| 0 <= i < s.len() ==> is_digit(#[trigger] s[i])
}

/// The number written by the decimal digits `s`.
pub open spec fn digits_value(s: Seq<char>) -> nat
    decreases s.len(),
{
    if s.len() == 0 {
        0
    } else {
        digits_value(s.drop_last()) * 10 + ((s.last() as u32) - 48) as nat
    }
}

/// What `str::parse::<i32>` gives: an optional sign, then one or more
/// decimal digits, within the range of `i32`.
pub open spec fn parse_i32_spec(s: Seq<char>) -> Option<i32> {
    let neg = s.len() > 0 && s[0] == '-';
    let signed = s.len() > 0 && (s[0] == '-' || s[0] == '+');
    let body = if signed {
        s.skip(1)
    } else {
        s
    };
    let v: int = if neg {
        -digits_value(body)
    } else {
        digits_value(body) as int
    };
    if body.len() == 0 || !all_digits(body) || v < i32::MIN || v > i32::MAX {
        None
    } else {
        Some(v as i32)
    }
}

proof fn lemma_digits_value_grows(s: Seq<char>, i: int)
    requires
        0 <= i <= s.len(),
        all_digits(s),
    ensures
        digits_value(s.take(i)) <= digits_value(s),
    decreases s.len() - i,
{
    if i < s.len() {
        lemma_digits_value_grows(s, i + 1);
        assert(s.take(i + 1).drop_last() =~= s.take(i));
    } else {
        assert(s.take(i) =~= s);
    }
}

/// Parses a decimal `i32` the way `str::parse::<i32>` does.
pub fn parse_i32(s: &[char]) -> (r: Option<i32>)
    ensures
        r == parse_i32_spec(s@),
{
    let n = s.len();
    let neg = n > 0 && s[0] == '-';
    let signed = n > 0 && (s[0] == '-' || s[0] == '+');
    let start: usize = if signed {
        1
    } else {
        0
    };
    let ghost body = if signed {
        s@.skip(1)
    } else {
        s@
    };
    if start == n {
        return None;
    }
    let mut acc: i64 = 0;
    let mut i: usize = start;
    while i < n
        invariant
            n == s@.len(),
            signed == (s@.len() > 0 && (s@[0] == '-' || s@[0] == '+')),
            neg == (s@.len() > 0 && s@[0] == '-'),
            start == (if signed { 1usize } else { 0usize }),
            start <= i <= n,
            body == s@.subrange(start as int, n as int),
            0 <= acc <= 2147483648,
            acc == digits_value(body.take(i - start)),
            all_digits(body.take(i - start)),
        decreases n - i,
    {
        let c = s[i];
        if !('0' <= c && c <= '9') {
            assert(!is_digit(body[i - start]));
            return None;
        }
        let d: i64 = (c as u32 - 48) as i64;
        assert(body.take(i - start + 1).drop_last() =~= body.take(i - start));
        acc = acc * 10 + d;
        i = i + 1;
        assert(all_digits(body.take(i - start))) by {
            assert forall|k: int| 0 <= k < i - start implies is_digit(#[trigger] body.take(i - start)[k]) by {
                if k < i - start - 1 {
                    assert(body.take(i - start)[k] == body.take(i - start - 1)[k]);
                }
            }
        }
        if acc > 2147483648 {
            let mut j: usize = i;
            while j < n
                invariant
                    n == s@.len(),
                    signed == (s@.len() > 0 && (s@[0] == '-' || s@[0] == '+')),
                    neg == (s@.len() > 0 && s@[0] == '-'),
            neg == (s@.len() > 0 && s@[0] == '-'),
                    start == (if signed { 1usize } else { 0usize }),
                    digits_value(body.take(i - start)) > 2147483648,
                    start < i <= j <= n,
                    body == s@.subrange(start as int, n as int),
                    all_digits(body.take(j - start)),
                decreases n - j,
            {
                let c2 = s[j];
                if !('0' <= c2 && c2 <= '9') {
                    assert(!is_digit(body[j - start]));
                    return None;
                }
                j = j + 1;
                assert(all_digits(body.take(j - start))) by {
                    assert forall|k: int| 0 <= k < j - start implies is_digit(#[trigger] body.take(j - start)[k]) by {
                        if k < j - start - 1 {
                            assert(body.take(j - start)[k] == body.take(j - start - 1)[k]);
                        }
                    }
                }
            }
            proof {
                assert(body.take(n - start) =~= body);
                lemma_digits_value_grows(body, i - start);
                assert(digits_value(body) > 2147483648);
                assert(body.len() > 0);
                assert(all_digits(body));
                if signed {
                    assert(body =~= s@.skip(1));
                } else {
                    assert(body =~= s@);
                }
            }
            return None;
        }
    }
    assert(body.take(n - start) =~= body);
    if neg {
        Some((0 - acc) as i32)
    } else if acc > 2147483647 {
        None
    } else {
        Some(acc as i32)
    }
}

pub open spec fn mini_series() -> Seq<char> {
    seq!['m', 'i', 'n', 'i', '-', 's', 'e', 'r', 'i', 'e', 's']
}

pub open spec fn season_prefix() -> Seq<char> {
    seq!['S', 'e', 'a', 's', 'o', 'n', ' ']
}

pub open spec fn lower_ascii(s: Seq<char>) -> Seq<char> {
    s.map_values(|c: char| lower(c))
}

/// The season number a "Season" field holds: `Mini-series` (in any case) is
/// season 1, `Season <n>` is `n`, and otherwise the trimmed field is parsed.
pub open spec fn season_number_spec(s: Seq<char>) -> Option<i32> {
    if lower_ascii(s) == mini_series() {
        Some(1)
    } else if s.len() >= 7 && s.take(7) == season_prefix() {
        parse_i32_spec(trim(s.skip(7)))
    } else {
        parse_i32_spec(trim(s))
    }
}

pub fn parse_season_number(input: &str) -> (r: Option<i32>)
    ensures
        r == season_number_spec(input@),
{
    let cs = chars_of(input);
    let lowered = crate::text::lower_chars(cs.as_slice());
    let mini: Vec<char> = vec!['m', 'i', 'n', 'i', '-', 's', 'e', 'r', 'i', 'e', 's'];
    assert(mini@ =~= mini_series());
    if chars_eq(lowered.as_slice(), mini.as_slice()) {
        return Some(1);
    }
    let prefix: Vec<char> = vec!['S', 'e', 'a', 's', 'o', 'n', ' '];
    assert(prefix@ =~= season_prefix());
    if cs.len() >= 7 {
        let head = slice_chars(cs.as_slice(), 0, 7);
        assert(head@ =~= cs@.take(7));
        if chars_eq(head.as_slice(), prefix.as_slice()) {
            let rest = slice_chars(cs.as_slice(), 7, cs.len());
            assert(rest@ =~= cs@.skip(7));
            let t = trim_chars(rest.as_slice());
            return parse_i32(t.as_slice());
        }
    }
    let t = trim_chars(cs.as_slice());
    parse_i32(t.as_slice())
}

/// A catalog id given directly: only digits, parsed as `i32`.
pub open spec fn tmdb_id_spec(s: Seq<char>) -> Option<i32> {
    if all_digits(s) {
        parse_i32_spec(s)
    } else {
        None
    }
}

pub fn parse_tmdb_id(input: &str) -> (r: Option<i32>)
    ensures
        r == tmdb_id_spec(input@),
{
    let cs = chars_of(input);
    let mut i: usize = 0;
    while i < cs.len()
        invariant
            i <= cs@.len(),
            cs@ == input@,
            forall|k: int| 0 <= k < i ==> is_digit(#[trigger] cs@[k]),
        decreases cs@.len() - i,
    {
        if !('0' <= cs[i] && cs[i] <= '9') {
            return None;
        }
        i = i + 1;
    }
    parse_i32(cs.as_slice())
}

/// An AniList id given directly: the trimmed query is non-empty, all digits,
/// and a positive `i32`.
pub open spec fn anilist_id_spec(s: Seq<char>) -> Option<i32> {
    let t = trim(s);
    if t.len() > 0 && all_digits(t) && (parse_i32_spec(t) matches Some(v) && v > 0) {
        parse_i32_spec(t)
    } else {
        None
    }
}

pub fn parse_anilist_id(query: &str) -> (r: Option<i32>)
    ensures
        r == anilist_id_spec(query@),
{
    let cs = chars_of(query);
    let t = trim_chars(cs.as_slice());
    if t.len() == 0 {
        return None;
    }
    let mut i: usize = 0;
    while i < t.len()
        invariant
            i <= t@.len(),
            t@ == trim(query@),
            forall|k: int| 0 <= k < i ==> is_digit(#[trigger] t@[k]),
        decreases t@.len() - i,
    {
        if !('0' <= t[i] && t[i] <= '9') {
            return None;
        }
        i = i + 1;
    }
    match parse_i32(t.as_slice()) {
        Some(v) => if v > 0 {
            Some(v)
        } else {
            None
        },
        None => None,
    }
}

/// Whether `s` is `tt` followed by one or more decimal digits.
pub open spec fn is_imdb_spec(s: Seq<char>) -> bool {
    s.len() > 2 && s[0] == 't' && s[1] == 't' && all_digits(s.skip(2))
}

/// The IMDb id in a query: the trimmed, lower-cased query if it has the
/// form `tt<digits>`.
pub open spec fn imdb_id_spec(s: Seq<char>) -> Option<Seq<char>> {
    let l = crate::gateway::lowercase_of(trim(s));
    if is_imdb_spec(l) {
        Some(l)
    } else {
        None
    }
}

/// Whether `s` (already lower-cased) is an IMDb id.
pub fn is_imdb_id(s: &str) -> (r: bool)
    ensures
        r == is_imdb_spec(s@),
{
    let cs = chars_of(s);
    if cs.len() <= 2 || cs[0] != 't' || cs[1] != 't' {
        return false;
    }
    let mut i: usize = 2;
    while i < cs.len()
        invariant
            2 <= i <= cs@.len(),
            cs@ == s@,
            forall|k: int| 2 <= k < i ==> is_digit(#[trigger] cs@[k]),
        decreases cs@.len() - i,
    {
        if !('0' <= cs[i] && cs[i] <= '9') {
            assert(!is_digit(cs@.skip(2)[i - 2]));
            return false;
        }
        i = i + 1;
    }
    assert forall|k: int| 0 <= k < cs@.skip(2).len() implies is_digit(#[trigger] cs@.skip(2)[k]) by {
        assert(cs@.skip(2)[k] == cs@[k + 2]);
    }
    true
}

pub fn parse_imdb_id(input: &str) -> (r: Option<String>)
    ensures
        match r {
            Some(v) => imdb_id_spec(input@) == Some(v@),
            None => imdb_id_spec(input@) is None,
        },
{
    let cs = chars_of(input);
    let t = trim_chars(cs.as_slice());
    let trimmed = string_of(t.as_slice());
    let l = crate::gateway::lowercase(trimmed.as_str());
    if is_imdb_id(l.as_str()) {
        Some(l)
    } else {
        None
    }
}

} // verus!
