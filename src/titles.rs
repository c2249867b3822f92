//! Title keys and the scoring of search hits against a query.
use vstd::prelude::*;
use crate::text::{chars_of, chars_eq, string_of, trim_chars, trim, lower, to_lower, is_alnum, contains, contains_chars};

verus! {

/// Lower-cased ASCII letters and digits kept, every run of other
/// characters turned into one space.
pub open spec fn squash(s: Seq<char>) -> Seq<char>
    decreases s.len(),
{
    if s.len() == 0 {
        Seq::empty()
    } else {
        let p = squash(s.drop_last());
        let c = lower(s.last());
        if is_alnum(c) {
            p.push(c)
        } else if p.len() > 0 && p.last() == ' ' {
            p
        } else {
            p.push(' ')
        }
    }
}

/// The comparison key of a title: its words of ASCII letters and digits,
/// lower-cased, separated by single spaces.
pub open spec fn title_key(s: Seq<char>) -> Seq<char> {
    trim(squash(s))
}

pub fn normalize_title_key(input: &str) -> (r: String)
    ensures
        r@ == title_key(input@),
{
    let cs = chars_of(input);
    let mut out: Vec<char> = Vec::new();
    let mut last_space = false;
    let mut i: usize = 0;
    while i < cs.len()
        invariant
            i <= cs@.len(),
            out@ == squash(cs@.take(i as int)),
            last_space == (out@.len() > 0 && out@.last() == ' '),
        decreases cs@.len() - i,
    {
        assert(cs@.take(i as int + 1).drop_last() =~= cs@.take(i as int));
        assert(cs@.take(i as int + 1).last() == cs@[i as int]);
        let c = to_lower(cs[i]);
        let alnum = ('0' <= c && c <= '9') || ('a' <= c && c <= 'z') || ('A' <= c && c <= 'Z');
        if alnum {
            out.push(c);
            last_space = false;
        } else if !last_space {
            out.push(' ');
            last_space = true;
        }
        i = i + 1;
    }
    assert(cs@.take(cs@.len() as int) =~= cs@);
    let t = trim_chars(out.as_slice());
    string_of(t.as_slice())
}

/// The score of one title against the query key: `weight` for an equal
/// key, `weight - 20` when one key contains the other, else 0.
pub open spec fn score_one(query_key: Seq<char>, title: Option<Seq<char>>, weight: int) -> int {
    match title {
        None => 0,
        Some(t) => {
            let k = title_key(t);
            if k == query_key {
                weight
            } else if contains(k, query_key) || contains(query_key, k) {
                weight - 20
            } else {
                0
            }
        },
    }
}

/// The better of the English title's score (weight 100) and the romanised
/// title's (weight 90).
pub open spec fn score_spec(query_key: Seq<char>, english: Option<Seq<char>>, romaji: Option<Seq<char>>) -> int {
    let a = score_one(query_key, english, 100);
    let b = score_one(query_key, romaji, 90);
    if a >= b {
        a
    } else {
        b
    }
}

fn score_one_exec(query_key: &Vec<char>, title: Option<&str>, weight: i32) -> (r: i32)
    requires
        20 <= weight <= 100,
    ensures
        r == score_one(query_key@, crate::signature::opt_view(title), weight as int),
{
    match title {
        None => 0,
        Some(t) => {
            let k = normalize_title_key(t);
            let kc = chars_of(k.as_str());
            if chars_eq(kc.as_slice(), query_key.as_slice()) {
                weight
            } else if contains_chars(kc.as_slice(), query_key.as_slice()) || contains_chars(
                query_key.as_slice(),
                kc.as_slice(),
            ) {
                weight - 20
            } else {
                0
            }
        },
    }
}

/// Scores a title pair against an already normalised query key.
pub fn score_title(query_key: &str, english: Option<&str>, romaji: Option<&str>) -> (r: i32)
    ensures
        r == score_spec(
            query_key@,
            crate::signature::opt_view(english),
            crate::signature::opt_view(romaji),
        ),
{
    let q = chars_of(query_key);
    let a = score_one_exec(&q, english, 100);
    let b = score_one_exec(&q, romaji, 90);
    if a >= b {
        a
    } else {
        b
    }
}

/// A search hit: its id and titles.
#[derive(Clone, Debug)]
pub struct SearchCandidate {
    pub id: i32,
    pub english: Option<String>,
    pub romaji: Option<String>,
}

pub open spec fn str_view(s: Option<String>) -> Option<Seq<char>> {
    match s {
        Some(v) => Some(v@),
        None => None,
    }
}

fn as_str_opt(s: &Option<String>) -> (r: Option<&str>)
    ensures
        crate::signature::opt_view(r) == str_view(*s),
{
    match s {
        Some(v) => Some(v.as_str()),
        None => None,
    }
}

/// The score of a hit: its own titles' score, plus half the score of the
/// titles of the first-season entry it belongs to (`None` when those could
/// not be had).
pub open spec fn candidate_score_spec(query_key: Seq<char>, c: SearchCandidate, base: Option<(Option<Seq<char>>, Option<Seq<char>>)>) -> int {
    score_spec(query_key, str_view(c.english), str_view(c.romaji)) + match base {
        Some((e, r)) => score_spec(query_key, e, r) / 2,
        None => 0,
    }
}

pub fn candidate_score(query_key: &str, c: &SearchCandidate, base_english: Option<&str>, base_romaji: Option<&str>, base_known: bool) -> (r: i32)
    ensures
        r == candidate_score_spec(
            query_key@,
            *c,
            if base_known {
                Some((crate::signature::opt_view(base_english), crate::signature::opt_view(base_romaji)))
            } else {
                None
            },
        ),
{
    let direct = score_title(query_key, as_str_opt(&c.english), as_str_opt(&c.romaji));
    let base = if base_known {
        score_title(query_key, base_english, base_romaji)
    } else {
        0
    };
    direct + base / 2
}

/// The first of the scored hits with the highest score.
pub open spec fn best_scored_ok(scored: Seq<(i32, i32)>, r: Option<i32>) -> bool {
    if scored.len() == 0 {
        r is None
    } else {
        exists|j: int|
            0 <= j < scored.len() && r == Some(scored[j].0) && (forall|k: int|
                0 <= k < scored.len() ==> #[trigger] scored[k].1 <= scored[j].1) && (forall|k: int|
                0 <= k < j ==> #[trigger] scored[k].1 < scored[j].1)
    }
}

/// Picks the id of the best-scored hit, given as (id, score) in search order.
pub fn pick_best_scored(scored: &Vec<(i32, i32)>) -> (r: Option<i32>)
    ensures
        best_scored_ok(scored@, r),
{
    if scored.len() == 0 {
        return None;
    }
    let mut best: usize = 0;
    let mut i: usize = 1;
    while i < scored.len()
        invariant
            1 <= i <= scored@.len(),
            best < i,
            forall|k: int| 0 <= k < i ==> #[trigger] scored@[k].1 <= scored@[best as int].1,
            forall|k: int| 0 <= k < best ==> #[trigger] scored@[k].1 < scored@[best as int].1,
        decreases scored@.len() - i,
    {
        if scored[i].1 > scored[best].1 {
            best = i;
        }
        i = i + 1;
    }
    Some(scored[best].0)
}

/// The hit a plain search settles on: the first whose English or romanised
/// title has the query's key, else the first hit.
pub open spec fn search_hit_ok(query: Seq<char>, hits: Seq<SearchCandidate>, r: Option<i32>) -> bool {
    let q = title_key(query);
    let exact = |c: SearchCandidate|
        (c.english is Some && title_key(c.english->0@) == q) || (c.romaji is Some && title_key(c.romaji->0@) == q);
    if hits.len() == 0 {
        r is None
    } else if exists|j: int| 0 <= j < hits.len() && exact(#[trigger] hits[j]) {
        exists|j: int|
            0 <= j < hits.len() && exact(hits[j]) && r == Some(hits[j].id) && forall|k: int|
                0 <= k < j ==> !exact(#[trigger] hits[k])
    } else {
        r == Some(hits[0].id)
    }
}

fn key_matches(t: &Option<String>, q: &Vec<char>) -> (r: bool)
    ensures
        r == (t is Some && title_key(t->0@) == q@),
{
    match t {
        Some(s) => {
            let k = normalize_title_key(s.as_str());
            let kc = chars_of(k.as_str());
            chars_eq(kc.as_slice(), q.as_slice())
        },
        None => false,
    }
}

pub fn pick_search_hit(query: &str, hits: &Vec<SearchCandidate>) -> (r: Option<i32>)
    ensures
        search_hit_ok(query@, hits@, r),
{
    let qk = normalize_title_key(query);
    let q = chars_of(qk.as_str());
    let mut i: usize = 0;
    while i < hits.len()
        invariant
            i <= hits@.len(),
            q@ == title_key(query@),
            forall|k: int| 0 <= k < i ==> !((#[trigger] hits@[k]).english is Some && title_key(hits@[k].english->0@) == q@
                || hits@[k].romaji is Some && title_key(hits@[k].romaji->0@) == q@),
        decreases hits@.len() - i,
    {
        if key_matches(&hits[i].english, &q) || key_matches(&hits[i].romaji, &q) {
            return Some(hits[i].id);
        }
        i = i + 1;
    }
    if hits.len() == 0 {
        None
    } else {
        Some(hits[0].id)
    }
}

} // verus!
