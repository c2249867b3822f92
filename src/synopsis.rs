//! Cleaning of anime synopses: markup removed with line breaks kept, basic
//! character entities decoded, source notes dropped and blank lines
//! collapsed.
use vstd::prelude::*;
use crate::text::{chars_of, string_of, trim, trim_chars, lower, append_chars, slice_chars};

verus! {

/// The index of the first `c` in `s`, or its length.
pub open spec fn find_char(s: Seq<char>, c: char) -> int
    decreases s.len(),
{
    if s.len() == 0 {
        0
    } else if s[0] == c {
        0
    } else {
        1 + find_char(s.drop_first(), c)
    }
}

proof fn lemma_find_char_bounds(s: Seq<char>, c: char)
    ensures
        0 <= find_char(s, c) <= s.len(),
        find_char(s, c) < s.len() ==> s[find_char(s, c)] == c,
        forall|k: int| 0 <= k < find_char(s, c) ==> s[k] != c,
    decreases s.len(),
{
    if s.len() > 0 && s[0] != c {
        lemma_find_char_bounds(s.drop_first(), c);
        assert forall|k: int| 0 <= k < find_char(s, c) implies s[k] != c by {
            if k > 0 {
                assert(s[k] == s.drop_first()[k - 1]);
            }
        }
    }
}

proof fn lemma_find_char_is(s: Seq<char>, c: char, i: int)
    requires
        0 <= i <= s.len(),
        i == s.len() || s[i] == c,
        forall|k: int| 0 <= k < i ==> s[k] != c,
    ensures
        find_char(s, c) == i,
    decreases s.len(),
{
    if s.len() > 0 && i > 0 {
        lemma_find_char_is(s.drop_first(), c, i - 1);
    }
}

/// The first `c` in `s` is at `i`, or there is none and `i` is the length.
pub proof fn lemma_find_char_is_pub(s: Seq<char>, c: char, i: int)
    requires
        0 <= i <= s.len(),
        i == s.len() || s[i] == c,
        forall|k: int| 0 <= k < i ==> s[k] != c,
    ensures
        find_char(s, c) == i,
{
    lemma_find_char_is(s, c, i);
}

/// `s` without its leading run of `/`.
pub open spec fn skip_slashes(s: Seq<char>) -> Seq<char>
    decreases s.len(),
{
    if s.len() > 0 && s[0] == '/' {
        skip_slashes(s.drop_first())
    } else {
        s
    }
}

/// Whether a tag's text names a line break: after trimming and removing
/// leading slashes, it starts with `br` in any ASCII case.
pub open spec fn is_break_tag(tag: Seq<char>) -> bool {
    let t = trim(skip_slashes(trim(tag)));
    t.len() >= 2 && lower(t[0]) == 'b' && lower(t[1]) == 'r'
}

/// Markup removed: each `<...>` tag (or an unclosed `<` and all after it)
/// dropped, a break tag replaced by a newline.
pub open spec fn strip_tags(s: Seq<char>) -> Seq<char>
    decreases s.len(),
{
    if s.len() == 0 {
        Seq::empty()
    } else if s[0] != '<' {
        seq![s[0]] + strip_tags(s.drop_first())
    } else {
        let body = s.drop_first();
        let e = find_char(body, '>');
        let rest = if 0 <= e < body.len() {
            body.skip(e + 1)
        } else {
            Seq::empty()
        };
        (if is_break_tag(body.take(e)) {
            seq!['\n']
        } else {
            Seq::empty()
        }) + strip_tags(rest)
    }
}

fn skip_slashes_chars(s: &Vec<char>) -> (r: Vec<char>)
    ensures
        r@ == skip_slashes(s@),
{
    let mut i: usize = 0;
    assert(s@.skip(0) =~= s@);
    while i < s.len() && s[i] == '/'
        invariant
            i <= s@.len(),
            skip_slashes(s@) == skip_slashes(s@.skip(i as int)),
        decreases s@.len() - i,
    {
        assert(s@.skip(i as int).drop_first() =~= s@.skip(i as int + 1));
        i = i + 1;
    }
    let r = slice_chars(s.as_slice(), i, s.len());
    assert(r@ =~= s@.skip(i as int));
    r
}

fn is_break_tag_exec(tag: &Vec<char>) -> (r: bool)
    ensures
        r == is_break_tag(tag@),
{
    let a = trim_chars(tag.as_slice());
    let b = skip_slashes_chars(&a);
    let t = trim_chars(b.as_slice());
    t.len() >= 2 && crate::text::to_lower(t[0]) == 'b' && crate::text::to_lower(t[1]) == 'r'
}

pub fn strip_html_with_breaks(input: &str) -> (r: String)
    ensures
        r@ == strip_tags(input@),
{
    let s = chars_of(input);
    let mut out: Vec<char> = Vec::new();
    let mut i: usize = 0;
    assert(s@.skip(0) =~= s@);
    assert(out@ + strip_tags(s@.skip(0)) =~= strip_tags(s@));
    while i < s.len()
        invariant
            i <= s@.len(),
            out@ + strip_tags(s@.skip(i as int)) == strip_tags(s@),
        decreases s@.len() - i,
    {
        let ghost cur = s@.skip(i as int);
        if s[i] != '<' {
            assert(cur.drop_first() =~= s@.skip(i as int + 1));
            let ghost o0 = out@;
            out.push(s[i]);
            assert(out@ + strip_tags(s@.skip(i as int + 1)) =~= o0 + strip_tags(cur));
            i = i + 1;
        } else {
            let mut j: usize = i + 1;
            while j < s.len() && s[j] != '>'
                invariant
                    i < j <= s@.len(),
                    forall|k: int| i < k < j ==> s@[k] != '>',
                decreases s@.len() - j,
            {
                j = j + 1;
            }
            let ghost body = cur.drop_first();
            proof {
                assert(body =~= s@.skip(i as int + 1));
                lemma_find_char_is(body, '>', j - i - 1);
                assert(cur[0] == '<');
            }
            let tag = slice_chars(s.as_slice(), i + 1, j);
            assert(tag@ =~= body.take(j - i - 1));
            let ghost o0 = out@;
            if is_break_tag_exec(&tag) {
                out.push('\n');
            }
            if j < s.len() {
                assert(body.skip(j - i - 1 + 1) =~= s@.skip(j + 1));
                i = j + 1;
            } else {
                assert(s@.skip(s@.len() as int) =~= Seq::<char>::empty());
                i = j;
            }
            assert(out@ + strip_tags(s@.skip(i as int)) =~= o0 + strip_tags(cur));
        }
    }
    assert(s@.skip(0) =~= s@);
    assert(out@ + strip_tags(s@.skip(i as int)) =~= out@);
    string_of(out.as_slice())
}

/// The number of bytes of `c` in UTF-8.
pub open spec fn utf8_len(c: char) -> nat {
    if (c as u32) < 0x80 {
        1
    } else if (c as u32) < 0x800 {
        2
    } else if (c as u32) < 0x10000 {
        3
    } else {
        4
    }
}

/// The number of bytes of `s` in UTF-8.
pub open spec fn utf8_bytes(s: Seq<char>) -> nat
    decreases s.len(),
{
    if s.len() == 0 {
        0
    } else {
        utf8_bytes(s.drop_last()) + utf8_len(s.last())
    }
}

fn utf8_len_exec(c: char) -> (r: usize)
    ensures
        r == utf8_len(c),
{
    let v = c as u32;
    if v < 0x80 {
        1
    } else if v < 0x800 {
        2
    } else if v < 0x10000 {
        3
    } else {
        4
    }
}

/// Reads an entity name after `&`, having read `acc` so far: up to a `;`
/// (consumed, not kept) or the end of the text. Once the name is longer
/// than 32 bytes, the next character is consumed and the name dropped.
/// Gives the name and the number of characters consumed.
pub open spec fn read_entity(s: Seq<char>, acc: Seq<char>) -> (Seq<char>, nat)
    decreases s.len(),
{
    if s.len() == 0 {
        (acc, 0)
    } else if s[0] == ';' {
        (acc, 1)
    } else if utf8_bytes(acc) > 32 {
        (Seq::empty(), 1)
    } else {
        let (e, n) = read_entity(s.drop_first(), acc.push(s[0]));
        (e, n + 1)
    }
}

pub open spec fn is_hex_digit(c: char) -> bool {
    ('0' <= c && c <= '9') || ('a' <= c && c <= 'f') || ('A' <= c && c <= 'F')
}

pub open spec fn hex_digit_value(c: char) -> nat {
    if '0' <= c && c <= '9' {
        ((c as u32) - 48) as nat
    } else if 'a' <= c && c <= 'f' {
        ((c as u32) - 87) as nat
    } else {
        ((c as u32) - 55) as nat
    }
}

pub open spec fn hex_value(s: Seq<char>) -> nat
    decreases s.len(),
{
    if s.len() == 0 {
        0
    } else {
        hex_value(s.drop_last()) * 16 + hex_digit_value(s.last())
    }
}

pub open spec fn all_hex(s: Seq<char>) -> bool {
    forall|i: int| 0 <= i < s.len() ==> is_hex_digit(#[trigger] s[i])
}

/// What `u32::from_str_radix(s, 16)` gives.
pub open spec fn parse_hex_u32_spec(s: Seq<char>) -> Option<u32> {
    let body = if s.len() > 0 && s[0] == '+' {
        s.skip(1)
    } else {
        s
    };
    if body.len() == 0 || !all_hex(body) || hex_value(body) > u32::MAX {
        None
    } else {
        Some(hex_value(body) as u32)
    }
}

/// What `str::parse::<u32>` gives.
pub open spec fn parse_dec_u32_spec(s: Seq<char>) -> Option<u32> {
    match crate::retry::parse_u64_spec(s) {
        Some(v) => if v <= u32::MAX {
            Some(v as u32)
        } else {
            None
        },
        None => None,
    }
}

proof fn lemma_hex_grows(s: Seq<char>, i: int)
    requires
        0 <= i <= s.len(),
    ensures
        hex_value(s.take(i)) <= hex_value(s),
    decreases s.len() - i,
{
    if i < s.len() {
        lemma_hex_grows(s, i + 1);
        assert(s.take(i + 1).drop_last() =~= s.take(i));
    } else {
        assert(s.take(i) =~= s);
    }
}

fn parse_hex_u32(s: &[char]) -> (r: Option<u32>)
    ensures
        r == parse_hex_u32_spec(s@),
{
    let n = s.len();
    let start: usize = if n > 0 && s[0] == '+' {
        1
    } else {
        0
    };
    let ghost body = s@.subrange(start as int, n as int);
    assert(body =~= (if s@.len() > 0 && s@[0] == '+' { s@.skip(1) } else { s@ }));
    if start == n {
        return None;
    }
    let mut i: usize = start;
    while i < n
        invariant
            n == s@.len(),
            start <= i <= n,
            body == s@.subrange(start as int, n as int),
            body == (if s@.len() > 0 && s@[0] == '+' { s@.skip(1) } else { s@ }),
            forall|k: int| start <= k < i ==> is_hex_digit(#[trigger] s@[k]),
        decreases n - i,
    {
        let c = s[i];
        if !(('0' <= c && c <= '9') || ('a' <= c && c <= 'f') || ('A' <= c && c <= 'F')) {
            assert(!is_hex_digit(body[i - start]));
            return None;
        }
        i = i + 1;
    }
    assert forall|k: int| 0 <= k < body.len() implies is_hex_digit(#[trigger] body[k]) by {
        assert(body[k] == s@[k + start]);
    }
    let mut acc: u64 = 0;
    let mut j: usize = start;
    while j < n
        invariant
            n == s@.len(),
            start <= j <= n,
            body == s@.subrange(start as int, n as int),
            body == (if s@.len() > 0 && s@[0] == '+' { s@.skip(1) } else { s@ }),
            forall|k: int| 0 <= k < body.len() ==> is_hex_digit(#[trigger] body[k]),
            acc == hex_value(body.take(j - start)),
            acc <= u32::MAX,
        decreases n - j,
    {
        assert(body.take(j - start + 1).drop_last() =~= body.take(j - start));
        assert(body.take(j - start + 1).last() == s@[j as int]);
        let c = s[j];
        let d: u64 = if '0' <= c && c <= '9' {
            (c as u32 - 48) as u64
        } else if 'a' <= c && c <= 'f' {
            (c as u32 - 87) as u64
        } else {
            (c as u32 - 55) as u64
        };
        acc = acc * 16 + d;
        j = j + 1;
        if acc > u32::MAX as u64 {
            proof {
                lemma_hex_grows(body, j - start);
            }
            return None;
        }
    }
    assert(body.take(n - start) =~= body);
    Some(acc as u32)
}

/// Whether `v` is a Unicode scalar value.
pub open spec fn is_scalar(v: u32) -> bool {
    v < 0xD800 || (0xE000 <= v && v <= 0x10FFFF)
}

/// The character whose code is the scalar value `v`.
pub open spec fn char_with_code(v: u32) -> char {
    v as char
}

/// Relies on `char::from_u32`: the character whose code is `v`, for a
/// Unicode scalar value, else none.
#[verifier::external_body]
fn char_from_u32(v: u32) -> (r: Option<char>)
    ensures
        r is Some <==> is_scalar(v),
        r matches Some(c) ==> c == char_with_code(v) && c as u32 == v,
{
    char::from_u32(v)
}

/// The character an entity name stands for, if it is one of the named
/// entities that are known or a decimal or hexadecimal character reference.
pub open spec fn entity_char(e: Seq<char>) -> Option<char> {
    if e == seq!['a', 'm', 'p'] {
        Some('&')
    } else if e == seq!['l', 't'] {
        Some('<')
    } else if e == seq!['g', 't'] {
        Some('>')
    } else if e == seq!['q', 'u', 'o', 't'] {
        Some('"')
    } else if e == seq!['a', 'p', 'o', 's'] {
        Some('\'')
    } else if e == seq!['n', 'b', 's', 'p'] {
        Some(' ')
    } else if e.len() >= 2 && e[0] == '#' && (e[1] == 'x' || e[1] == 'X') {
        match parse_hex_u32_spec(e.skip(2)) {
            Some(v) => if is_scalar(v) {
                Some(char_with_code(v))
            } else {
                None
            },
            None => None,
        }
    } else if e.len() >= 1 && e[0] == '#' {
        match parse_dec_u32_spec(e.skip(1)) {
            Some(v) => if is_scalar(v) {
                Some(char_with_code(v))
            } else {
                None
            },
            None => None,
        }
    } else {
        None
    }
}

fn is_word(cs: &Vec<char>, w: Vec<char>) -> (r: bool)
    ensures
        r == (cs@ == w@),
{
    crate::text::chars_eq(cs.as_slice(), w.as_slice())
}

fn entity_char_exec(e: &Vec<char>) -> (r: Option<char>)
    ensures
        r == entity_char(e@),
{
    let ghost v = e@;
    if is_word(e, vec!['a', 'm', 'p']) {
        assert(v =~= seq!['a', 'm', 'p']);
        return Some('&');
    }
    if is_word(e, vec!['l', 't']) {
        assert(v =~= seq!['l', 't']);
        return Some('<');
    }
    if is_word(e, vec!['g', 't']) {
        assert(v =~= seq!['g', 't']);
        return Some('>');
    }
    if is_word(e, vec!['q', 'u', 'o', 't']) {
        assert(v =~= seq!['q', 'u', 'o', 't']);
        return Some('"');
    }
    if is_word(e, vec!['a', 'p', 'o', 's']) {
        assert(v =~= seq!['a', 'p', 'o', 's']);
        return Some('\'');
    }
    if is_word(e, vec!['n', 'b', 's', 'p']) {
        assert(v =~= seq!['n', 'b', 's', 'p']);
        return Some(' ');
    }
    proof {
        assert(v != seq!['a', 'm', 'p']);
    }
    if e.len() >= 2 && e[0] == '#' && (e[1] == 'x' || e[1] == 'X') {
        let rest = slice_chars(e.as_slice(), 2, e.len());
        assert(rest@ =~= v.skip(2));
        return match parse_hex_u32(rest.as_slice()) {
            Some(x) => char_from_u32(x),
            None => None,
        };
    }
    if e.len() >= 1 && e[0] == '#' {
        let rest = slice_chars(e.as_slice(), 1, e.len());
        assert(rest@ =~= v.skip(1));
        return match crate::retry::parse_u64(rest.as_slice()) {
            Some(x) => if x <= 0xFFFF_FFFF {
                char_from_u32(x as u32)
            } else {
                None
            },
            None => None,
        };
    }
    None
}

/// Basic character entities decoded; an unknown one is kept as
/// `&name;`, a bare `&` as it is.
pub open spec fn decode_entities(s: Seq<char>) -> Seq<char>
    decreases s.len(),
{
    if s.len() == 0 {
        Seq::empty()
    } else if s[0] != '&' {
        seq![s[0]] + decode_entities(s.drop_first())
    } else {
        let (e, n) = read_entity(s.drop_first(), Seq::empty());
        let rest = if n <= s.len() - 1 {
            s.skip(1 + n as int)
        } else {
            Seq::empty()
        };
        (if e.len() == 0 {
            seq!['&']
        } else {
            match entity_char(e) {
                Some(c) => seq![c],
                None => seq!['&'] + e + seq![';'],
            }
        }) + decode_entities(rest)
    }
}

proof fn lemma_read_entity_consumes(s: Seq<char>, acc: Seq<char>)
    ensures
        read_entity(s, acc).1 <= s.len(),
    decreases s.len(),
{
    if s.len() > 0 && s[0] != ';' && utf8_bytes(acc) <= 32 {
        lemma_read_entity_consumes(s.drop_first(), acc.push(s[0]));
    }
}

pub fn decode_basic_html_entities(input: &str) -> (r: String)
    ensures
        r@ == decode_entities(input@),
{
    let s = chars_of(input);
    let mut out: Vec<char> = Vec::new();
    let mut i: usize = 0;
    assert(s@.skip(0) =~= s@);
    assert(out@ + decode_entities(s@.skip(0)) =~= decode_entities(s@));
    while i < s.len()
        invariant
            i <= s@.len(),
            out@ + decode_entities(s@.skip(i as int)) == decode_entities(s@),
        decreases s@.len() - i,
    {
        let ghost cur = s@.skip(i as int);
        let ghost o0 = out@;
        if s[i] != '&' {
            assert(cur.drop_first() =~= s@.skip(i as int + 1));
            out.push(s[i]);
            assert(out@ + decode_entities(s@.skip(i as int + 1)) =~= o0 + decode_entities(cur));
            i = i + 1;
        } else {
            let ghost full = read_entity(cur.drop_first(), Seq::empty());
            let mut entity: Vec<char> = Vec::new();
            let mut nbytes: usize = 0;
            let mut j: usize = i + 1;
            let mut done = false;
            proof {
                assert(cur.drop_first() =~= s@.skip(i as int + 1));
            }
            while !done && j < s.len()
                invariant
                    i < j <= s@.len(),
                    cur == s@.skip(i as int),
                    nbytes == utf8_bytes(entity@),
                    nbytes <= 36,
                    !done ==> read_entity(s@.skip(j as int), entity@) == (full.0, (full.1 - (j - i - 1)) as nat),
                    !done ==> full.1 >= j - i - 1,
                    done ==> full == (entity@, (j - i - 1) as nat),
                decreases s@.len() - j,
            {
                let c = s[j];
                let ghost here = s@.skip(j as int);
                assert(here[0] == c);
                assert(here.drop_first() =~= s@.skip(j as int + 1));
                j = j + 1;
                if c == ';' {
                    done = true;
                } else if nbytes > 32 {
                    entity = Vec::new();
                    nbytes = 0;
                    done = true;
                    assert(entity@ =~= Seq::<char>::empty());
                } else {
                    let ghost e0 = entity@;
                    entity.push(c);
                    assert(entity@.drop_last() =~= e0);
                    nbytes = nbytes + utf8_len_exec(c);
                }
            }
            proof {
                if !done {
                    assert(s@.skip(j as int) =~= Seq::<char>::empty());
                }
                lemma_read_entity_consumes(cur.drop_first(), Seq::empty());
                assert(cur.skip(1 + full.1 as int) =~= s@.skip(j as int));
            }
            if entity.len() == 0 {
                out.push('&');
            } else {
                match entity_char_exec(&entity) {
                    Some(c) => out.push(c),
                    None => {
                        out.push('&');
                        append_chars(&mut out, entity.as_slice());
                        out.push(';');
                    },
                }
            }
            i = j;
            assert(out@ + decode_entities(s@.skip(i as int)) =~= o0 + decode_entities(cur));
        }
    }
    assert(out@ + decode_entities(s@.skip(i as int)) =~= out@);
    string_of(out.as_slice())
}

pub open spec fn source_word() -> Seq<char> {
    seq!['(', 's', 'o', 'u', 'r', 'c', 'e', ':']
}

/// The first position where `(source:` occurs in `s`, in any ASCII case.
pub open spec fn first_source(s: Seq<char>) -> int {
    choose|i: int|
        crate::text::occurs_at(crate::text::lower_seq(s), source_word(), i) && forall|j: int|
            0 <= j < i ==> !crate::text::occurs_at(crate::text::lower_seq(s), source_word(), j)
}

pub open spec fn has_source(s: Seq<char>) -> bool {
    exists|i: int| crate::text::occurs_at(crate::text::lower_seq(s), source_word(), i)
}

#[verifier::opaque]
/// `s` without its `(source: ...)` notes, in any ASCII case, each up to
/// the next `)`; a note that is never closed runs to the end.
pub open spec fn remove_sources(s: Seq<char>) -> Seq<char>
    decreases s.len(),
{
    if has_source(s) {
        let p = first_source(s);
        let tail = s.skip(p);
        let q = find_char(tail, ')');
        if 0 <= p <= s.len() && 0 <= q < tail.len() {
            s.take(p) + remove_sources(tail.skip(q + 1))
        } else {
            s.take(p)
        }
    } else {
        s
    }
}

proof fn lemma_first_source(s: Seq<char>, p: int)
    requires
        crate::text::occurs_at(crate::text::lower_seq(s), source_word(), p),
        forall|j: int| 0 <= j < p ==> !crate::text::occurs_at(crate::text::lower_seq(s), source_word(), j),
    ensures
        has_source(s),
        first_source(s) == p,
{
    let c = first_source(s);
    if c < p {
        assert(!crate::text::occurs_at(crate::text::lower_seq(s), source_word(), c));
    } else if c > p {
    }
}

proof fn lemma_remove_none(s: Seq<char>)
    requires
        !has_source(s),
    ensures
        remove_sources(s) == s,
{
    reveal(remove_sources);
}

proof fn lemma_remove_step(s: Seq<char>, p: int, q: int)
    requires
        has_source(s),
        first_source(s) == p,
        0 <= p <= s.len(),
        q == find_char(s.skip(p), ')'),
    ensures
        remove_sources(s) == if q < s.skip(p).len() {
            s.take(p) + remove_sources(s.skip(p).skip(q + 1))
        } else {
            s.take(p)
        },
{
    lemma_find_char_bounds(s.skip(p), ')');
    reveal(remove_sources);
}

proof fn lemma_shift_occurs(s: Seq<char>, idx: int, k: int)
    requires
        0 <= idx <= s.len(),
        0 <= k,
    ensures
        crate::text::occurs_at(crate::text::lower_seq(s.skip(idx)), source_word(), k)
            <==> crate::text::occurs_at(crate::text::lower_seq(s), source_word(), idx + k),
{
    let a = crate::text::lower_seq(s.skip(idx));
    let b = crate::text::lower_seq(s);
    if k + 8 <= a.len() {
        assert(a.subrange(k, k + 8) =~= b.subrange(idx + k, idx + k + 8));
    }
}

pub fn remove_source_blocks(input: &str) -> (r: String)
    ensures
        r@ == remove_sources(input@),
{
    let s = chars_of(input);
    let l = crate::text::lower_chars(s.as_slice());
    let w: Vec<char> = vec!['(', 's', 'o', 'u', 'r', 'c', 'e', ':'];
    assert(w@ =~= source_word());
    let mut out: Vec<char> = Vec::new();
    let mut idx: usize = 0;
    assert(s@.skip(0) =~= s@);
    loop
        invariant
            idx <= s@.len(),
            s@ == input@,
            l@ == crate::text::lower_seq(s@),
            w@ == source_word(),
            out@ + remove_sources(s@.skip(idx as int)) == remove_sources(s@),
        decreases s@.len() - idx,
    {
        let ghost cur = s@.skip(idx as int);
        let found = crate::text::find_from(l.as_slice(), w.as_slice(), idx);
        match found {
            None => {
                assert(!has_source(cur)) by {
                    if has_source(cur) {
                        let k = choose|k: int| crate::text::occurs_at(crate::text::lower_seq(cur), source_word(), k);
                        lemma_shift_occurs(s@, idx as int, k);
                    }
                }
                proof {
                    lemma_remove_none(cur);
                }
                let rest = slice_chars(s.as_slice(), idx, s.len());
                assert(rest@ =~= cur);
                let ghost o0 = out@;
                append_chars(&mut out, rest.as_slice());
                assert(out@ == o0 + remove_sources(cur));
                return string_of(out.as_slice());
            },
            Some(start) => {
                let ghost p = start - idx;
                proof {
                    lemma_shift_occurs(s@, idx as int, p);
                    assert forall|j: int| 0 <= j < p implies !crate::text::occurs_at(
                        crate::text::lower_seq(cur),
                        source_word(),
                        j,
                    ) by {
                        lemma_shift_occurs(s@, idx as int, j);
                    }
                    lemma_first_source(cur, p);
                }
                let head = slice_chars(s.as_slice(), idx, start);
                assert(head@ =~= cur.take(p));
                let ghost o0 = out@;
                append_chars(&mut out, head.as_slice());
                let mut e: usize = start;
                while e < s.len() && s[e] != ')'
                    invariant
                        start <= e <= s@.len(),
                        forall|k: int| start <= k < e ==> s@[k] != ')',
                    decreases s@.len() - e,
                {
                    e = e + 1;
                }
                let ghost tail = cur.skip(p);
                proof {
                    assert(tail =~= s@.skip(start as int));
                    lemma_find_char_is(tail, ')', e - start);
                    lemma_remove_step(cur, p, e - start);
                }
                if e < s.len() {
                    assert(tail.skip(e - start + 1) =~= s@.skip(e + 1));
                    idx = e + 1;
                    assert(out@ + remove_sources(s@.skip(idx as int)) =~= o0 + remove_sources(cur));
                } else {
                    assert(out@ =~= o0 + remove_sources(cur));
                    return string_of(out.as_slice());
                }
            },
        }
    }
}

/// Each `\r\n` replaced by `\n`, scanning from the left.
pub open spec fn replace_crlf(s: Seq<char>) -> Seq<char>
    decreases s.len(),
{
    if s.len() == 0 {
        Seq::empty()
    } else if s.len() >= 2 && s[0] == '\r' && s[1] == '\n' {
        seq!['\n'] + replace_crlf(s.skip(2))
    } else {
        seq![s[0]] + replace_crlf(s.skip(1))
    }
}

/// Runs of newlines cut to two, `run` newlines having just been seen.
pub open spec fn collapse(s: Seq<char>, run: nat) -> Seq<char>
    decreases s.len(),
{
    if s.len() == 0 {
        Seq::empty()
    } else if s[0] == '\n' {
        (if run + 1 <= 2 {
            seq!['\n']
        } else {
            Seq::empty()
        }) + collapse(s.skip(1), run + 1)
    } else {
        seq![s[0]] + collapse(s.skip(1), 0)
    }
}

pub open spec fn normalize_spec(s: Seq<char>) -> Seq<char> {
    trim(collapse(replace_crlf(s), 0))
}

fn replace_crlf_chars(s: &Vec<char>) -> (r: Vec<char>)
    ensures
        r@ == replace_crlf(s@),
{
    let mut out: Vec<char> = Vec::new();
    let mut i: usize = 0;
    assert(s@.skip(0) =~= s@);
    while i < s.len()
        invariant
            i <= s@.len(),
            out@ + replace_crlf(s@.skip(i as int)) == replace_crlf(s@),
        decreases s@.len() - i,
    {
        let ghost cur = s@.skip(i as int);
        let ghost o0 = out@;
        if i + 1 < s.len() && s[i] == '\r' && s[i + 1] == '\n' {
            out.push('\n');
            assert(cur.skip(2) =~= s@.skip(i + 2));
            i = i + 2;
        } else {
            out.push(s[i]);
            assert(cur.skip(1) =~= s@.skip(i + 1));
            i = i + 1;
        }
        assert(out@ + replace_crlf(s@.skip(i as int)) =~= o0 + replace_crlf(cur));
    }
    assert(out@ + replace_crlf(s@.skip(i as int)) =~= out@);
    out
}

pub fn normalize_newlines(input: &str) -> (r: String)
    ensures
        r@ == normalize_spec(input@),
{
    let s0 = chars_of(input);
    let s = replace_crlf_chars(&s0);
    let mut out: Vec<char> = Vec::new();
    let mut run: usize = 0;
    let mut i: usize = 0;
    assert(s@.skip(0) =~= s@);
    while i < s.len()
        invariant
            i <= s@.len(),
            run <= i,
            out@ + collapse(s@.skip(i as int), run as nat) == collapse(s@, 0),
        decreases s@.len() - i,
    {
        let ghost cur = s@.skip(i as int);
        let ghost o0 = out@;
        let ghost r0 = run as nat;
        assert(cur.skip(1) =~= s@.skip(i + 1));
        if s[i] == '\n' {
            run = run + 1;
            if run <= 2 {
                out.push('\n');
            }
        } else {
            run = 0;
            out.push(s[i]);
        }
        i = i + 1;
        assert(out@ + collapse(s@.skip(i as int), run as nat) =~= o0 + collapse(cur, r0));
    }
    assert(out@ + collapse(s@.skip(i as int), run as nat) =~= out@);
    let t = trim_chars(out.as_slice());
    string_of(t.as_slice())
}

/// An anime synopsis cleaned for display.
pub open spec fn clean_synopsis_spec(s: Seq<char>) -> Seq<char> {
    normalize_spec(remove_sources(decode_entities(strip_tags(s))))
}

pub fn clean_anilist_synopsis(input: &str) -> (r: String)
    ensures
        r@ == clean_synopsis_spec(input@),
{
    let without_tags = strip_html_with_breaks(input);
    let decoded = decode_basic_html_entities(without_tags.as_str());
    let without_sources = remove_source_blocks(decoded.as_str());
    normalize_newlines(without_sources.as_str())
}

} // verus!
