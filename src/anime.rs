//! Normalisation of anime catalog data: titles, roles, dates, trailer
//! links, countries and lists.
use vstd::prelude::*;
use crate::relations::FuzzyDate;
use crate::text::{
    chars_of, chars_eq, string_of, trim, trim_end, trim_start, trim_chars, trim_end_index, trim_start_index,
    slice_chars, lower_seq, lower_string, contains, contains_chars, occurs_at, rfind, is_ascii_ws, is_alnum,
    is_digit, append_chars, nat_digits, views,
};
use crate::gateway::{lowercase, lowercase_of};

verus! {

/// The kind of media asked of the anime catalog.
#[derive(Clone, Copy, Debug, PartialEq, Eq, Structural)]
pub enum AniListMediaType {
    Anime,
    Manga,
}

impl AniListMediaType {
    /// The name of the kind in the catalog's query language.
    pub fn as_graphql(&self) -> (r: String)
        ensures
            r@ == match self {
                AniListMediaType::Anime => seq!['A', 'N', 'I', 'M', 'E'],
                AniListMediaType::Manga => seq!['M', 'A', 'N', 'G', 'A'],
            },
    {
        match self {
            AniListMediaType::Anime => string_of(&['A', 'N', 'I', 'M', 'E']),
            AniListMediaType::Manga => string_of(&['M', 'A', 'N', 'G', 'A']),
        }
    }
}

pub open spec fn director_word() -> Seq<char> {
    seq!['d', 'i', 'r', 'e', 'c', 't', 'o', 'r']
}

pub open spec fn assistant_director() -> Seq<char> {
    seq!['a', 's', 's', 'i', 's', 't', 'a', 'n', 't', ' ', 'd', 'i', 'r', 'e', 'c', 't', 'o', 'r']
}

/// Whether a staff role counts as directing: it mentions "director"
/// (in any ASCII case) but is not an assistant director.
pub open spec fn is_director_spec(role: Seq<char>) -> bool {
    contains(lower_seq(role), director_word()) && !contains(lower_seq(role), assistant_director())
}

pub fn is_director_role(role: &str) -> (r: bool)
    ensures
        r == is_director_spec(role@),
{
    let l = lower_string(role);
    let d: Vec<char> = vec!['d', 'i', 'r', 'e', 'c', 't', 'o', 'r'];
    let a: Vec<char> = vec!['a', 's', 's', 'i', 's', 't', 'a', 'n', 't', ' ', 'd', 'i', 'r', 'e', 'c', 't', 'o', 'r'];
    assert(d@ =~= director_word());
    assert(a@ =~= assistant_director());
    contains_chars(l.as_slice(), d.as_slice()) && !contains_chars(l.as_slice(), a.as_slice())
}

pub fn content_rating_from_is_adult(is_adult: bool) -> (r: String)
    ensures
        r@ == if is_adult {
            seq!['A', 'd', 'u', 'l', 't']
        } else {
            seq!['A', 'l', 'l', ' ', 'A', 'u', 'd', 'i', 'e', 'n', 'c', 'e', 's']
        },
{
    if is_adult {
        string_of(&['A', 'd', 'u', 'l', 't'])
    } else {
        string_of(&['A', 'l', 'l', ' ', 'A', 'u', 'd', 'i', 'e', 'n', 'c', 'e', 's'])
    }
}

pub open spec fn season_word_lc() -> Seq<char> {
    seq!['s', 'e', 'a', 's', 'o', 'n']
}

pub open spec fn is_cut_char(c: char) -> bool {
    is_ascii_ws(c) || c == '-' || c == ':'
}

/// `s` without its trailing run of ASCII white space, `-` and `:`.
pub open spec fn strip_separators(s: Seq<char>) -> Seq<char>
    decreases s.len(),
{
    if s.len() > 0 && is_cut_char(s.last()) {
        strip_separators(s.drop_last())
    } else {
        s
    }
}

/// A title without a trailing "Season <digits>" (any ASCII case, starting a
/// word), nor the separators and space before it. A title that would be
/// left empty, or has no such suffix, is only trimmed at its end.
#[verifier::opaque]
pub open spec fn strip_season_spec(title: Seq<char>) -> Seq<char> {
    let t = trim_end(title);
    let l = lower_seq(t);
    if exists|i: int| occurs_at(l, season_word_lc(), i) {
        let idx = choose|i: int| occurs_at(l, season_word_lc(), i) && forall|j: int| i < j ==> !occurs_at(l, season_word_lc(), j);
        let after = trim_start(l.skip(idx + 6));
        if after.len() == 0 || !crate::ids::all_digits(after) || (idx > 0 && is_alnum(l[idx - 1])) {
            t
        } else {
            let stripped = trim_end(strip_separators(t.take(idx)));
            if stripped.len() == 0 {
                t
            } else {
                stripped
            }
        }
    } else {
        t
    }
}

fn strip_separators_index(s: &[char], end: usize) -> (r: usize)
    requires
        end <= s@.len(),
    ensures
        r <= end,
        strip_separators(s@.take(end as int)) == s@.take(r as int),
{
    let mut j: usize = end;
    while j > 0 && (s[j - 1] == ' ' || s[j - 1] == '\t' || s[j - 1] == '\n' || s[j - 1] == '\x0C' || s[j - 1] == '\r'
        || s[j - 1] == '-' || s[j - 1] == ':')
        invariant
            j <= end <= s@.len(),
            strip_separators(s@.take(end as int)) == strip_separators(s@.take(j as int)),
        decreases j,
    {
        assert(s@.take(j as int).drop_last() =~= s@.take(j - 1));
        j = j - 1;
    }
    j
}

fn all_digit_chars(s: &[char]) -> (r: bool)
    ensures
        r == crate::ids::all_digits(s@),
{
    let mut i: usize = 0;
    while i < s.len()
        invariant
            i <= s@.len(),
            forall|k: int| 0 <= k < i ==> is_digit(#[trigger] s@[k]),
        decreases s@.len() - i,
    {
        if !('0' <= s[i] && s[i] <= '9') {
            return false;
        }
        i = i + 1;
    }
    true
}

/// Removes a trailing season suffix from a title.
pub fn strip_trailing_season_suffix(title: &str) -> (r: String)
    ensures
        r@ == strip_season_spec(title@),
{
    reveal(strip_season_spec);
    let cs = chars_of(title);
    let e = trim_end_index(cs.as_slice());
    let t = slice_chars(cs.as_slice(), 0, e);
    assert(t@ =~= trim_end(title@));
    let l = crate::text::lower_chars(t.as_slice());
    let w: Vec<char> = vec!['s', 'e', 'a', 's', 'o', 'n'];
    assert(w@ =~= season_word_lc());
    let idx = match rfind(l.as_slice(), w.as_slice()) {
        None => return string_of(t.as_slice()),
        Some(i) => i,
    };
    proof {
        let c = choose|i: int| occurs_at(l@, season_word_lc(), i) && forall|j: int| i < j ==> !occurs_at(l@, season_word_lc(), j);
        assert(c == idx);
    }
    let rest = slice_chars(l.as_slice(), idx + 6, l.len());
    assert(rest@ =~= l@.skip(idx + 6));
    let s0 = trim_start_index(rest.as_slice());
    let after = slice_chars(rest.as_slice(), s0, rest.len());
    if after.len() == 0 || !all_digit_chars(after.as_slice()) {
        return string_of(t.as_slice());
    }
    if idx > 0 {
        let p = l[idx - 1];
        if ('0' <= p && p <= '9') || ('a' <= p && p <= 'z') || ('A' <= p && p <= 'Z') {
            return string_of(t.as_slice());
        }
    }
    let cut = strip_separators_index(t.as_slice(), idx);
    let head = slice_chars(t.as_slice(), 0, cut);
    assert(head@ =~= t@.take(cut as int));
    let e2 = trim_end_index(head.as_slice());
    if e2 == 0 {
        string_of(t.as_slice())
    } else {
        let stripped = slice_chars(head.as_slice(), 0, e2);
        assert(stripped@ =~= head@.take(e2 as int));
        string_of(stripped.as_slice())
    }
}

/// Title fields as the catalog sends them.
#[derive(Clone, Debug)]
pub struct MediaTitle {
    pub english: Option<String>,
    pub romaji: Option<String>,
}

/// A title field trimmed, or none if absent or blank.
pub open spec fn present(s: Option<String>) -> Option<Seq<char>> {
    match s {
        Some(v) => if trim(v@).len() > 0 {
            Some(trim(v@))
        } else {
            None
        },
        None => None,
    }
}

pub open spec fn unknown_title() -> Seq<char> {
    seq!['U', 'n', 'k', 'n', 'o', 'w', 'n', ' ', 'T', 'i', 't', 'l', 'e']
}

/// The main title (English preferred, then romanised, then a placeholder),
/// the English-name field (never set: it would repeat the main title) and
/// the original title (the romanised one), each without a season suffix.
pub open spec fn titles_spec(t: MediaTitle) -> (Seq<char>, Option<Seq<char>>, Option<Seq<char>>) {
    let actual = match (present(t.english), present(t.romaji)) {
        (Some(e), _) => e,
        (None, Some(r)) => r,
        (None, None) => unknown_title(),
    };
    (
        strip_season_spec(actual),
        None,
        match present(t.romaji) {
            Some(r) => Some(strip_season_spec(r)),
            None => None,
        },
    )
}

fn present_exec(s: &Option<String>) -> (r: Option<String>)
    ensures
        match r {
            Some(v) => present(*s) == Some(v@),
            None => present(*s) is None,
        },
{
    match s {
        Some(v) => {
            let t = trim_chars(chars_of(v.as_str()).as_slice());
            if t.len() > 0 {
                Some(string_of(t.as_slice()))
            } else {
                None
            }
        },
        None => None,
    }
}

pub fn choose_titles(title: &MediaTitle) -> (r: (String, Option<String>, Option<String>))
    ensures
        r.0@ == titles_spec(*title).0,
        r.1 is None,
        match r.2 {
            Some(o) => titles_spec(*title).2 == Some(o@),
            None => titles_spec(*title).2 is None,
        },
{
    let english = present_exec(&title.english);
    let romaji = present_exec(&title.romaji);
    let actual = match (&english, &romaji) {
        (Some(e), _) => string_of(chars_of(e.as_str()).as_slice()),
        (None, Some(r)) => string_of(chars_of(r.as_str()).as_slice()),
        (None, None) => string_of(&['U', 'n', 'k', 'n', 'o', 'w', 'n', ' ', 'T', 'i', 't', 'l', 'e']),
    };
    let name = strip_trailing_season_suffix(actual.as_str());
    let original = match &romaji {
        Some(r) => Some(strip_trailing_season_suffix(r.as_str())),
        None => None,
    };
    (name, None, original)
}

/// `n` in decimal, zero-padded to `width` characters, a minus sign counting
/// toward the width.
pub open spec fn padded(n: int, width: nat) -> Seq<char> {
    let d = nat_digits(if n < 0 {
        (-n) as nat
    } else {
        n as nat
    });
    let sign: Seq<char> = if n < 0 {
        seq!['-']
    } else {
        Seq::empty()
    };
    let fill: int = width - sign.len() - d.len();
    sign + Seq::new(if fill > 0 {
        fill as nat
    } else {
        0
    }, |i: int| '0') + d
}

fn padded_chars(n: i32, width: usize) -> (r: Vec<char>)
    requires
        width <= 16,
    ensures
        r@ == padded(n as int, width as nat),
{
    let d = crate::text::decimal_chars(if n < 0 {
        (0i64 - n as i64)
    } else {
        n as i64
    });
    let ghost mag: nat = if n < 0 {
        (-n) as nat
    } else {
        n as nat
    };
    let mut out: Vec<char> = Vec::new();
    if n < 0 {
        out.push('-');
    }
    let sign_len: usize = if n < 0 {
        1
    } else {
        0
    };
    assert(d@ == nat_digits(mag));
    let mut k: usize = 0;
    let used = d.len();
    let fill: usize = if used < width && sign_len < width - used {
        width - used - sign_len
    } else {
        0
    };
    while k < fill
        invariant
            k <= fill,
            out@.len() == sign_len + k,
            out@ == (if n < 0 {
                seq!['-']
            } else {
                Seq::<char>::empty()
            }) + Seq::new(k as nat, |i: int| '0'),
        decreases fill - k,
    {
        out.push('0');
        k = k + 1;
        assert(out@ =~= (if n < 0 {
            seq!['-']
        } else {
            Seq::<char>::empty()
        }) + Seq::new(k as nat, |i: int| '0'));
    }
    append_chars(&mut out, d.as_slice());
    assert(out@ =~= padded(n as int, width as nat));
    out
}

/// A full date as `YYYY-MM-DD`; none unless year, month and day are known.
pub open spec fn fuzzy_date_text(d: FuzzyDate) -> Option<Seq<char>> {
    match (d.year, d.month, d.day) {
        (Some(y), Some(m), Some(dd)) => Some(padded(y as int, 4) + seq!['-'] + padded(m as int, 2) + seq!['-'] + padded(
            dd as int,
            2,
        )),
        _ => None,
    }
}

pub fn fuzzy_date_to_string(d: &FuzzyDate) -> (r: Option<String>)
    ensures
        match r {
            Some(s) => fuzzy_date_text(*d) == Some(s@),
            None => fuzzy_date_text(*d) is None,
        },
{
    let (y, m, dd) = match (d.year, d.month, d.day) {
        (Some(y), Some(m), Some(dd)) => (y, m, dd),
        _ => return None,
    };
    let mut out = padded_chars(y, 4);
    out.push('-');
    let mc = padded_chars(m, 2);
    append_chars(&mut out, mc.as_slice());
    out.push('-');
    let dc = padded_chars(dd, 2);
    append_chars(&mut out, dc.as_slice());
    Some(string_of(out.as_slice()))
}

/// Trailer fields as the catalog sends them.
#[derive(Clone, Debug)]
pub struct Trailer {
    pub id: Option<String>,
    pub site: Option<String>,
}

pub open spec fn youtube_prefix() -> Seq<char> {
    seq![
        'h', 't', 't', 'p', 's', ':', '/', '/', 'w', 'w', 'w', '.', 'y', 'o', 'u', 't', 'u', 'b', 'e', '.',
        'c', 'o', 'm', '/', 'w', 'a', 't', 'c', 'h', '?', 'v', '='
    ]
}

pub open spec fn dailymotion_prefix() -> Seq<char> {
    seq![
        'h', 't', 't', 'p', 's', ':', '/', '/', 'w', 'w', 'w', '.', 'd', 'a', 'i', 'l', 'y', 'm', 'o', 't',
        'i', 'o', 'n', '.', 'c', 'o', 'm', '/', 'v', 'i', 'd', 'e', 'o', '/'
    ]
}

/// The page of a trailer on the two video sites that are known.
pub open spec fn trailer_url_spec(t: Trailer) -> Option<Seq<char>> {
    match (t.site, t.id) {
        (Some(site), Some(id)) => if lower_seq(site@) == seq!['y', 'o', 'u', 't', 'u', 'b', 'e'] {
            Some(youtube_prefix() + id@)
        } else if lower_seq(site@) == seq!['d', 'a', 'i', 'l', 'y', 'm', 'o', 't', 'i', 'o', 'n'] {
            Some(dailymotion_prefix() + id@)
        } else {
            None
        },
        _ => None,
    }
}

pub fn trailer_url(trailer: &Trailer) -> (r: Option<String>)
    ensures
        match r {
            Some(s) => trailer_url_spec(*trailer) == Some(s@),
            None => trailer_url_spec(*trailer) is None,
        },
{
    let (site, id) = match (&trailer.site, &trailer.id) {
        (Some(s), Some(i)) => (s, i),
        _ => return None,
    };
    let l = lower_string(site.as_str());
    let yt: Vec<char> = vec!['y', 'o', 'u', 't', 'u', 'b', 'e'];
    let dm: Vec<char> = vec!['d', 'a', 'i', 'l', 'y', 'm', 'o', 't', 'i', 'o', 'n'];
    assert(yt@ =~= seq!['y', 'o', 'u', 't', 'u', 'b', 'e']);
    assert(dm@ =~= seq!['d', 'a', 'i', 'l', 'y', 'm', 'o', 't', 'i', 'o', 'n']);
    let ic = chars_of(id.as_str());
    if chars_eq(l.as_slice(), yt.as_slice()) {
        let mut out: Vec<char> = vec![
            'h', 't', 't', 'p', 's', ':', '/', '/', 'w', 'w', 'w', '.', 'y', 'o', 'u', 't', 'u', 'b', 'e', '.',
            'c', 'o', 'm', '/', 'w', 'a', 't', 'c', 'h', '?', 'v', '=',
        ];
        assert(out@ =~= youtube_prefix());
        append_chars(&mut out, ic.as_slice());
        return Some(string_of(out.as_slice()));
    }
    if chars_eq(l.as_slice(), dm.as_slice()) {
        let mut out: Vec<char> = vec![
            'h', 't', 't', 'p', 's', ':', '/', '/', 'w', 'w', 'w', '.', 'd', 'a', 'i', 'l', 'y', 'm', 'o', 't',
            'i', 'o', 'n', '.', 'c', 'o', 'm', '/', 'v', 'i', 'd', 'e', 'o', '/',
        ];
        assert(out@ =~= dailymotion_prefix());
        append_chars(&mut out, ic.as_slice());
        return Some(string_of(out.as_slice()));
    }
    None
}

/// The value of the first entry of `table` whose key is `key`.
pub open spec fn table_lookup(table: Seq<(Seq<char>, Seq<char>)>, key: Seq<char>) -> Option<Seq<char>>
    decreases table.len(),
{
    if table.len() == 0 {
        None
    } else if table[0].0 == key {
        Some(table[0].1)
    } else {
        table_lookup(table.drop_first(), key)
    }
}

pub open spec fn pairs_view(t: Seq<(String, String)>) -> Seq<(Seq<char>, Seq<char>)> {
    t.map_values(|p: (String, String)| (p.0@, p.1@))
}

pub fn lookup_in(table: &Vec<(String, String)>, key: &str) -> (r: Option<String>)
    ensures
        match r {
            Some(v) => table_lookup(pairs_view(table@), key@) == Some(v@),
            None => table_lookup(pairs_view(table@), key@) is None,
        },
{
    let k = chars_of(key);
    let mut i: usize = 0;
    assert(pairs_view(table@).skip(0) =~= pairs_view(table@));
    while i < table.len()
        invariant
            i <= table@.len(),
            k@ == key@,
            table_lookup(pairs_view(table@), key@) == table_lookup(pairs_view(table@).skip(i as int), key@),
        decreases table@.len() - i,
    {
        let ghost rest = pairs_view(table@).skip(i as int);
        assert(rest.drop_first() =~= pairs_view(table@).skip(i as int + 1));
        assert(rest[0] == (table@[i as int].0@, table@[i as int].1@));
        let c = chars_of(table[i].0.as_str());
        if chars_eq(c.as_slice(), k.as_slice()) {
            return Some(string_of(chars_of(table[i].1.as_str()).as_slice()));
        }
        i = i + 1;
    }
    None
}

fn entry(k: &str, v: &str) -> (r: (String, String))
    ensures
        r.0@ == k@,
        r.1@ == v@,
{
    (k.to_owned(), v.to_owned())
}

/// Country codes and the language spoken there.
pub open spec fn language_pairs() -> Seq<(Seq<char>, Seq<char>)> {
    seq![
        ("JP"@, "Japanese"@),
        ("KR"@, "Korean"@),
        ("CN"@, "Chinese"@),
        ("TW"@, "Chinese"@),
        ("HK"@, "Chinese"@),
        ("US"@, "English"@),
        ("GB"@, "English"@),
        ("AU"@, "English"@),
        ("CA"@, "English"@),
        ("NZ"@, "English"@),
        ("IE"@, "English"@),
        ("FR"@, "French"@),
        ("BE"@, "French"@),
        ("CH"@, "French"@),
        ("ES"@, "Spanish"@),
        ("MX"@, "Spanish"@),
        ("AR"@, "Spanish"@),
        ("CL"@, "Spanish"@),
        ("CO"@, "Spanish"@),
        ("PE"@, "Spanish"@),
        ("DE"@, "German"@),
        ("AT"@, "German"@),
        ("IT"@, "Italian"@),
        ("PT"@, "Portuguese"@),
        ("BR"@, "Portuguese"@),
        ("RU"@, "Russian"@),
    ]
}

fn language_table() -> (r: Vec<(String, String)>)
    ensures
        pairs_view(r@) == language_pairs(),
{
    let mut v: Vec<(String, String)> = Vec::new();
    v.push(entry("JP", "Japanese"));
    v.push(entry("KR", "Korean"));
    v.push(entry("CN", "Chinese"));
    v.push(entry("TW", "Chinese"));
    v.push(entry("HK", "Chinese"));
    v.push(entry("US", "English"));
    v.push(entry("GB", "English"));
    v.push(entry("AU", "English"));
    v.push(entry("CA", "English"));
    v.push(entry("NZ", "English"));
    v.push(entry("IE", "English"));
    v.push(entry("FR", "French"));
    v.push(entry("BE", "French"));
    v.push(entry("CH", "French"));
    v.push(entry("ES", "Spanish"));
    v.push(entry("MX", "Spanish"));
    v.push(entry("AR", "Spanish"));
    v.push(entry("CL", "Spanish"));
    v.push(entry("CO", "Spanish"));
    v.push(entry("PE", "Spanish"));
    v.push(entry("DE", "German"));
    v.push(entry("AT", "German"));
    v.push(entry("IT", "Italian"));
    v.push(entry("PT", "Portuguese"));
    v.push(entry("BR", "Portuguese"));
    v.push(entry("RU", "Russian"));
    assert(pairs_view(v@) =~= language_pairs());
    v
}

/// The language of a country of origin, for the countries that are known.
pub fn language_from_country(country_code: &str) -> (r: Option<String>)
    ensures
        match r {
            Some(v) => table_lookup(language_pairs(), country_code@) == Some(v@),
            None => table_lookup(language_pairs(), country_code@) is None,
        },
{
    lookup_in(&language_table(), country_code)
}

/// Country codes and the country's name.
pub open spec fn country_pairs() -> Seq<(Seq<char>, Seq<char>)> {
    seq![
        ("JP"@, "Japan"@),
        ("KR"@, "South Korea"@),
        ("CN"@, "China"@),
        ("TW"@, "Taiwan"@),
        ("HK"@, "Hong Kong"@),
        ("US"@, "United States"@),
        ("GB"@, "United Kingdom"@),
        ("FR"@, "France"@),
        ("ES"@, "Spain"@),
        ("DE"@, "Germany"@),
        ("IT"@, "Italy"@),
        ("BR"@, "Brazil"@),
        ("CA"@, "Canada"@),
        ("AU"@, "Australia"@),
    ]
}

fn country_table() -> (r: Vec<(String, String)>)
    ensures
        pairs_view(r@) == country_pairs(),
{
    let mut v: Vec<(String, String)> = Vec::new();
    v.push(entry("JP", "Japan"));
    v.push(entry("KR", "South Korea"));
    v.push(entry("CN", "China"));
    v.push(entry("TW", "Taiwan"));
    v.push(entry("HK", "Hong Kong"));
    v.push(entry("US", "United States"));
    v.push(entry("GB", "United Kingdom"));
    v.push(entry("FR", "France"));
    v.push(entry("ES", "Spain"));
    v.push(entry("DE", "Germany"));
    v.push(entry("IT", "Italy"));
    v.push(entry("BR", "Brazil"));
    v.push(entry("CA", "Canada"));
    v.push(entry("AU", "Australia"));
    assert(pairs_view(v@) =~= country_pairs());
    v
}

/// The name of a country, for the codes that are known.
pub fn country_name_from_code(code: &str) -> (r: Option<String>)
    ensures
        match r {
            Some(v) => table_lookup(country_pairs(), code@) == Some(v@),
            None => table_lookup(country_pairs(), code@) is None,
        },
{
    lookup_in(&country_table(), code)
}

/// `items` keeping only the first occurrence of each value.
pub open spec fn dedupe(items: Seq<Seq<char>>) -> Seq<Seq<char>>
    decreases items.len(),
{
    if items.len() == 0 {
        Seq::empty()
    } else {
        let p = dedupe(items.drop_last());
        if p.contains(items.last()) {
            p
        } else {
            p.push(items.last())
        }
    }
}

pub fn dedupe_preserve_order(items: Vec<String>) -> (r: Vec<String>)
    ensures
        views(r@) == dedupe(views(items@)),
{
    let mut out: Vec<String> = Vec::new();
    let mut i: usize = 0;
    while i < items.len()
        invariant
            i <= items@.len(),
            views(out@) == dedupe(views(items@).take(i as int)),
        decreases items@.len() - i,
    {
        let ghost t = views(items@).take(i as int + 1);
        assert(t.drop_last() =~= views(items@).take(i as int));
        assert(t.last() == items@[i as int]@);
        let c = chars_of(items[i].as_str());
        let mut j: usize = 0;
        let mut found = false;
        while j < out.len()
            invariant
                j <= out@.len(),
                c@ == items@[i as int]@,
                found == exists|k: int| 0 <= k < j && (#[trigger] out@[k])@ == c@,
            decreases out@.len() - j,
        {
            let o = chars_of(out[j].as_str());
            if chars_eq(o.as_slice(), c.as_slice()) {
                found = true;
            }
            j = j + 1;
        }
        proof {
            if found {
                let k = choose|k: int| 0 <= k < out@.len() && (#[trigger] out@[k])@ == c@;
                assert(views(out@)[k] == c@);
            } else {
                assert forall|k: int| 0 <= k < views(out@).len() implies views(out@)[k] != c@ by {
                    assert(views(out@)[k] == out@[k]@);
                }
            }
        }
        if !found {
            let ghost o0 = out@;
            out.push(string_of(c.as_slice()));
            assert(views(out@) =~= views(o0).push(c@));
        }
        i = i + 1;
    }
    assert(views(items@).take(items@.len() as int) =~= views(items@));
    out
}

/// Every value occurs once in the result of `dedupe`, and every value of
/// the input occurs in it.
pub proof fn lemma_dedupe_keeps_each_value_once(items: Seq<Seq<char>>)
    ensures
        forall|a: int, b: int| 0 <= a < b < dedupe(items).len() ==> dedupe(items)[a] != dedupe(items)[b],
        forall|k: int| 0 <= k < items.len() ==> dedupe(items).contains(#[trigger] items[k]),
    decreases items.len(),
{
    if items.len() > 0 {
        lemma_dedupe_keeps_each_value_once(items.drop_last());
        let p = dedupe(items.drop_last());
        assert forall|k: int| 0 <= k < items.len() implies dedupe(items).contains(#[trigger] items[k]) by {
            if k < items.len() - 1 {
                assert(items.drop_last()[k] == items[k]);
                assert(p.contains(items[k]));
                if !p.contains(items.last()) {
                    let m = choose|m: int| 0 <= m < p.len() && p[m] == items[k];
                    assert(p.push(items.last())[m] == items[k]);
                }
            } else if !p.contains(items.last()) {
                assert(p.push(items.last())[p.len() as int] == items[k]);
            }
        }
    }
}

pub open spec fn anime_tag() -> Seq<char> {
    seq!['A', 'n', 'i', 'm', 'e']
}

pub open spec fn animation_tag() -> Seq<char> {
    seq!['A', 'n', 'i', 'm', 'a', 't', 'i', 'o', 'n']
}

pub open spec fn is_tag_name(g: Seq<char>) -> bool {
    lowercase_of(g) == seq!['a', 'n', 'i', 'm', 'e'] || lowercase_of(g) == seq!['a', 'n', 'i', 'm', 'a', 't', 'i', 'o', 'n']
}

/// The genres of an anime entry led by the `Anime` and `Animation` tags,
/// any other spelling of those tags removed.
#[verifier::opaque]
pub open spec fn with_tags_spec(genres: Seq<Seq<char>>) -> Seq<Seq<char>> {
    seq![anime_tag(), animation_tag()] + genres.filter(|g: Seq<char>| !is_tag_name(g))
}

pub fn with_anime_tags(genres: Vec<String>) -> (r: Vec<String>)
    ensures
        views(r@) == with_tags_spec(views(genres@)),
{
    reveal(with_tags_spec);
    let mut out: Vec<String> = Vec::new();
    out.push(string_of(&['A', 'n', 'i', 'm', 'e']));
    out.push(string_of(&['A', 'n', 'i', 'm', 'a', 't', 'i', 'o', 'n']));
    let a: Vec<char> = vec!['a', 'n', 'i', 'm', 'e'];
    let b: Vec<char> = vec!['a', 'n', 'i', 'm', 'a', 't', 'i', 'o', 'n'];
    assert(a@ =~= seq!['a', 'n', 'i', 'm', 'e']);
    assert(b@ =~= seq!['a', 'n', 'i', 'm', 'a', 't', 'i', 'o', 'n']);
    assert(views(out@) =~= seq![anime_tag(), animation_tag()]);
    let mut i: usize = 0;
    while i < genres.len()
        invariant
            i <= genres@.len(),
            a@ == seq!['a', 'n', 'i', 'm', 'e'],
            b@ == seq!['a', 'n', 'i', 'm', 'a', 't', 'i', 'o', 'n'],
            views(out@) == seq![anime_tag(), animation_tag()] + views(genres@).take(i as int).filter(
                |g: Seq<char>| !is_tag_name(g),
            ),
        decreases genres@.len() - i,
    {
        let ghost t = views(genres@).take(i as int + 1);
        assert(t.drop_last() =~= views(genres@).take(i as int));
        assert(t.last() == genres@[i as int]@);
        let l = lowercase(genres[i].as_str());
        let lc = chars_of(l.as_str());
        let tag = chars_eq(lc.as_slice(), a.as_slice()) || chars_eq(lc.as_slice(), b.as_slice());
        let ghost o0 = views(out@);
        if !tag {
            out.push(genres[i].clone());
            assert(t.filter(|g: Seq<char>| !is_tag_name(g)) == views(genres@).take(i as int).filter(
                |g: Seq<char>| !is_tag_name(g),
            ).push(genres@[i as int]@)) by {
                reveal(Seq::filter);
            }
            assert(views(out@) =~= o0.push(genres@[i as int]@));
        } else {
            assert(t.filter(|g: Seq<char>| !is_tag_name(g)) == views(genres@).take(i as int).filter(
                |g: Seq<char>| !is_tag_name(g),
            )) by {
                reveal(Seq::filter);
            }
        }
        i = i + 1;
    }
    assert(views(genres@).take(genres@.len() as int) =~= views(genres@));
    out
}

} // verus!
