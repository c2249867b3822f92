//! Normalisation of movie and TV catalog data: certifications, names,
//! countries, trailers, posters and languages.
use vstd::prelude::*;
use crate::assoc::{first_index, lemma_first_index_is};
use crate::text::{chars_of, chars_eq, string_of, append_chars, lower_seq, lower_string, views, slice_chars};

verus! {

#[derive(Clone, Debug)]
pub struct ReleaseCert {
    pub certification: String,
}

#[derive(Clone, Debug)]
pub struct ReleaseEntry {
    pub iso_3166_1: String,
    pub release_dates: Vec<ReleaseCert>,
}

#[derive(Clone, Debug)]
pub struct ReleaseDates {
    pub results: Vec<ReleaseEntry>,
}

pub open spec fn us() -> Seq<char> {
    seq!['U', 'S']
}

pub open spec fn is_us_release() -> spec_fn(ReleaseEntry) -> bool {
    |e: ReleaseEntry| e.iso_3166_1@ == us()
}

pub open spec fn has_cert() -> spec_fn(ReleaseCert) -> bool {
    |c: ReleaseCert| c.certification@.len() > 0
}

/// The first non-empty certification of the first US release entry.
pub open spec fn us_cert_spec(d: ReleaseDates) -> Option<Seq<char>> {
    let i = first_index(d.results@, is_us_release());
    if i < d.results@.len() {
        let rd = d.results@[i].release_dates@;
        let j = first_index(rd, has_cert());
        if j < rd.len() {
            Some(rd[j].certification@)
        } else {
            None
        }
    } else {
        None
    }
}

fn is_us(s: &String) -> (r: bool)
    ensures
        r == (s@ == us()),
{
    let cs = chars_of(s.as_str());
    let u: Vec<char> = vec!['U', 'S'];
    assert(u@ =~= us());
    chars_eq(cs.as_slice(), u.as_slice())
}

pub fn us_cert_from_release_dates(data: &ReleaseDates) -> (r: Option<String>)
    ensures
        match r {
            Some(c) => us_cert_spec(*data) == Some(c@),
            None => us_cert_spec(*data) is None,
        },
{
    let mut i: usize = 0;
    while i < data.results.len()
        invariant
            i <= data.results@.len(),
            forall|k: int| 0 <= k < i ==> !is_us_release()(#[trigger] data.results@[k]),
        decreases data.results@.len() - i,
    {
        if is_us(&data.results[i].iso_3166_1) {
            proof {
                lemma_first_index_is(data.results@, is_us_release(), i as int);
            }
            let rd = &data.results[i].release_dates;
            let mut j: usize = 0;
            while j < rd.len()
                invariant
                    j <= rd@.len(),
                    i < data.results@.len(),
                    first_index(data.results@, is_us_release()) == i,
                    *rd == data.results@[i as int].release_dates,
                    forall|k: int| 0 <= k < j ==> !has_cert()(#[trigger] rd@[k]),
                decreases rd@.len() - j,
            {
                if !rd[j].certification.as_str().is_empty() {
                    proof {
                        lemma_first_index_is(rd@, has_cert(), j as int);
                    }
                    return Some(rd[j].certification.clone());
                }
                j = j + 1;
            }
            proof {
                lemma_first_index_is(rd@, has_cert(), j as int);
            }
            return None;
        }
        i = i + 1;
    }
    proof {
        lemma_first_index_is(data.results@, is_us_release(), i as int);
    }
    None
}

#[derive(Clone, Debug)]
pub struct RatingEntry {
    pub iso_3166_1: String,
    pub rating: Option<String>,
    pub certification: Option<String>,
}

#[derive(Clone, Debug)]
pub struct ContentRatings {
    pub results: Vec<RatingEntry>,
}

pub open spec fn is_us_rating() -> spec_fn(RatingEntry) -> bool {
    |e: RatingEntry| e.iso_3166_1@ == us()
}

/// The rating of the first US entry, or its certification.
pub open spec fn us_rating_spec(d: ContentRatings) -> Option<Seq<char>> {
    let i = first_index(d.results@, is_us_rating());
    if i < d.results@.len() {
        match d.results@[i].rating {
            Some(r) => Some(r@),
            None => match d.results@[i].certification {
                Some(c) => Some(c@),
                None => None,
            },
        }
    } else {
        None
    }
}

pub fn us_rating(data: &ContentRatings) -> (r: Option<String>)
    ensures
        match r {
            Some(c) => us_rating_spec(*data) == Some(c@),
            None => us_rating_spec(*data) is None,
        },
{
    let mut i: usize = 0;
    while i < data.results.len()
        invariant
            i <= data.results@.len(),
            forall|k: int| 0 <= k < i ==> !is_us_rating()(#[trigger] data.results@[k]),
        decreases data.results@.len() - i,
    {
        if is_us(&data.results[i].iso_3166_1) {
            proof {
                lemma_first_index_is(data.results@, is_us_rating(), i as int);
            }
            return match &data.results[i].rating {
                Some(r) => Some(r.clone()),
                None => match &data.results[i].certification {
                    Some(c) => Some(c.clone()),
                    None => None,
                },
            };
        }
        i = i + 1;
    }
    proof {
        lemma_first_index_is(data.results@, is_us_rating(), i as int);
    }
    None
}

#[derive(Clone, Debug)]
pub struct CastMember {
    pub name: String,
}

/// The names of the first `max` cast members.
pub fn top_names(list: &Vec<CastMember>, max: usize) -> (r: Vec<String>)
    ensures
        views(r@) == list@.take(if max < list@.len() { max as int } else { list@.len() as int }).map_values(
            |c: CastMember| c.name@,
        ),
{
    let n = if max < list.len() {
        max
    } else {
        list.len()
    };
    let mut out: Vec<String> = Vec::new();
    let mut i: usize = 0;
    while i < n
        invariant
            n <= list@.len(),
            i <= n,
            views(out@) == list@.take(i as int).map_values(|c: CastMember| c.name@),
        decreases n - i,
    {
        let ghost o0 = views(out@);
        out.push(list[i].name.clone());
        assert(views(out@) =~= o0.push(list@[i as int].name@));
        assert(list@.take(i as int + 1).map_values(|c: CastMember| c.name@) =~= list@.take(i as int).map_values(
            |c: CastMember| c.name@,
        ).push(list@[i as int].name@));
        i = i + 1;
    }
    out
}

#[derive(Clone, Debug)]
pub struct Genre {
    pub name: String,
}

pub open spec fn genre_names(genres: Option<Vec<Genre>>) -> Seq<Seq<char>> {
    match genres {
        Some(g) => g@.map_values(|x: Genre| x.name@),
        None => Seq::empty(),
    }
}

/// The genre names, none when the catalog sent no list.
pub fn names(genres: Option<&Vec<Genre>>) -> (r: Vec<String>)
    ensures
        views(r@) == genre_names(
            match genres {
                Some(g) => Some(*g),
                None => None,
            },
        ),
{
    match genres {
        None => {
            let v: Vec<String> = Vec::new();
            assert(views(v@) =~= Seq::<Seq<char>>::empty());
            v
        },
        Some(g) => {
            let mut out: Vec<String> = Vec::new();
            let mut i: usize = 0;
            while i < g.len()
                invariant
                    i <= g@.len(),
                    views(out@) == g@.take(i as int).map_values(|x: Genre| x.name@),
                decreases g@.len() - i,
            {
                let ghost o0 = views(out@);
                out.push(g[i].name.clone());
                assert(views(out@) =~= o0.push(g@[i as int].name@));
                assert(g@.take(i as int + 1).map_values(|x: Genre| x.name@) =~= g@.take(i as int).map_values(
                    |x: Genre| x.name@,
                ).push(g@[i as int].name@));
                i = i + 1;
            }
            assert(g@.take(g@.len() as int) =~= g@);
            out
        },
    }
}

#[derive(Clone, Debug)]
pub struct ProductionCountry {
    pub iso_3166_1: String,
}

pub open spec fn origin_spec(origin: Option<Vec<String>>, production: Option<Vec<ProductionCountry>>) -> Seq<Seq<char>> {
    match origin {
        Some(o) if o@.len() > 0 => views(o@),
        _ => match production {
            Some(p) => p@.map_values(|c: ProductionCountry| c.iso_3166_1@),
            None => Seq::empty(),
        },
    }
}

/// The countries of origin when given and non-empty, else the production
/// countries' codes.
pub fn origin_country(origin: Option<&Vec<String>>, production: Option<&Vec<ProductionCountry>>) -> (r: Vec<String>)
    ensures
        views(r@) == origin_spec(
            match origin {
                Some(o) => Some(*o),
                None => None,
            },
            match production {
                Some(p) => Some(*p),
                None => None,
            },
        ),
{
    match origin {
        Some(o) => {
            if o.len() > 0 {
                return crate::media::copy_list(o);
            }
        },
        None => {},
    }
    match production {
        None => {
            let v: Vec<String> = Vec::new();
            assert(views(v@) =~= Seq::<Seq<char>>::empty());
            v
        },
        Some(p) => {
            let mut out: Vec<String> = Vec::new();
            let mut i: usize = 0;
            while i < p.len()
                invariant
                    i <= p@.len(),
                    views(out@) == p@.take(i as int).map_values(|c: ProductionCountry| c.iso_3166_1@),
                decreases p@.len() - i,
            {
                let ghost o0 = views(out@);
                out.push(p[i].iso_3166_1.clone());
                assert(views(out@) =~= o0.push(p@[i as int].iso_3166_1@));
                assert(p@.take(i as int + 1).map_values(|c: ProductionCountry| c.iso_3166_1@) =~= p@.take(
                    i as int,
                ).map_values(|c: ProductionCountry| c.iso_3166_1@).push(p@[i as int].iso_3166_1@));
                i = i + 1;
            }
            assert(p@.take(p@.len() as int) =~= p@);
            out
        },
    }
}

/// The year of a `YYYY-MM-DD` date: the text before the first `-`.
pub fn extract_year(date: &str) -> (r: Option<String>)
    ensures
        r matches Some(y) && y@ == date@.take(crate::synopsis::find_char(date@, '-')),
{
    let cs = chars_of(date);
    let mut i: usize = 0;
    while i < cs.len() && cs[i] != '-'
        invariant
            i <= cs@.len(),
            forall|k: int| 0 <= k < i ==> cs@[k] != '-',
        decreases cs@.len() - i,
    {
        i = i + 1;
    }
    proof {
        crate::synopsis::lemma_find_char_is_pub(cs@, '-', i as int);
    }
    let y = slice_chars(cs.as_slice(), 0, i);
    assert(y@ =~= date@.take(i as int));
    Some(string_of(y.as_slice()))
}

#[derive(Clone, Debug)]
pub struct Video {
    pub site: String,
    pub video_type: String,
    pub key: String,
}

#[derive(Clone, Debug)]
pub struct Videos {
    pub results: Vec<Video>,
}

pub open spec fn youtube_of(kind: Seq<char>) -> spec_fn(Video) -> bool {
    |v: Video| lower_seq(v.site@) == seq!['y', 'o', 'u', 't', 'u', 'b', 'e'] && v.video_type@ == kind
}

pub open spec fn trailer_word() -> Seq<char> {
    seq!['T', 'r', 'a', 'i', 'l', 'e', 'r']
}

pub open spec fn teaser_word() -> Seq<char> {
    seq!['T', 'e', 'a', 's', 'e', 'r']
}

/// The YouTube page of the first YouTube trailer, else of the first
/// YouTube teaser.
pub open spec fn select_trailer_spec(v: Videos) -> Option<Seq<char>> {
    let i = first_index(v.results@, youtube_of(trailer_word()));
    let j = first_index(v.results@, youtube_of(teaser_word()));
    if i < v.results@.len() {
        Some(crate::anime::youtube_prefix() + v.results@[i].key@)
    } else if j < v.results@.len() {
        Some(crate::anime::youtube_prefix() + v.results@[j].key@)
    } else {
        None
    }
}

fn find_youtube(videos: &Videos, kind: &Vec<char>) -> (r: usize)
    ensures
        r == first_index(videos.results@, youtube_of(kind@)),
        r <= videos.results@.len(),
{
    let yt: Vec<char> = vec!['y', 'o', 'u', 't', 'u', 'b', 'e'];
    assert(yt@ =~= seq!['y', 'o', 'u', 't', 'u', 'b', 'e']);
    let mut i: usize = 0;
    while i < videos.results.len()
        invariant
            i <= videos.results@.len(),
            yt@ == seq!['y', 'o', 'u', 't', 'u', 'b', 'e'],
            forall|k: int| 0 <= k < i ==> !youtube_of(kind@)(#[trigger] videos.results@[k]),
        decreases videos.results@.len() - i,
    {
        let site = lower_string(videos.results[i].site.as_str());
        let t = chars_of(videos.results[i].video_type.as_str());
        if chars_eq(site.as_slice(), yt.as_slice()) && chars_eq(t.as_slice(), kind.as_slice()) {
            proof {
                lemma_first_index_is(videos.results@, youtube_of(kind@), i as int);
            }
            return i;
        }
        i = i + 1;
    }
    proof {
        lemma_first_index_is(videos.results@, youtube_of(kind@), i as int);
    }
    i
}

pub fn select_trailer(videos: &Videos) -> (r: Option<String>)
    ensures
        match r {
            Some(u) => select_trailer_spec(*videos) == Some(u@),
            None => select_trailer_spec(*videos) is None,
        },
{
    let tr: Vec<char> = vec!['T', 'r', 'a', 'i', 'l', 'e', 'r'];
    let te: Vec<char> = vec!['T', 'e', 'a', 's', 'e', 'r'];
    assert(tr@ =~= trailer_word());
    assert(te@ =~= teaser_word());
    let i = find_youtube(videos, &tr);
    let j = find_youtube(videos, &te);
    let k = if i < videos.results.len() {
        i
    } else if j < videos.results.len() {
        j
    } else {
        return None;
    };
    let mut out: Vec<char> = vec![
        'h', 't', 't', 'p', 's', ':', '/', '/', 'w', 'w', 'w', '.', 'y', 'o', 'u', 't', 'u', 'b', 'e', '.',
        'c', 'o', 'm', '/', 'w', 'a', 't', 'c', 'h', '?', 'v', '=',
    ];
    assert(out@ =~= crate::anime::youtube_prefix());
    let key = chars_of(videos.results[k].key.as_str());
    append_chars(&mut out, key.as_slice());
    Some(string_of(out.as_slice()))
}

/// Language codes and the language's name.
pub open spec fn language_names() -> Seq<(Seq<char>, Seq<char>)> {
    seq![
        ("en"@, "English"@),
        ("fr"@, "French"@),
        ("es"@, "Spanish"@),
        ("de"@, "German"@),
        ("it"@, "Italian"@),
        ("pt"@, "Portuguese"@),
        ("ru"@, "Russian"@),
        ("ja"@, "Japanese"@),
        ("ko"@, "Korean"@),
        ("zh"@, "Chinese"@),
        ("ar"@, "Arabic"@),
        ("hi"@, "Hindi"@),
        ("sv"@, "Swedish"@),
        ("da"@, "Danish"@),
        ("no"@, "Norwegian"@),
        ("fi"@, "Finnish"@),
        ("nl"@, "Dutch"@),
        ("pl"@, "Polish"@),
        ("tr"@, "Turkish"@),
        ("cs"@, "Czech"@),
        ("el"@, "Greek"@),
        ("he"@, "Hebrew"@),
        ("id"@, "Indonesian"@),
        ("ms"@, "Malay"@),
        ("th"@, "Thai"@),
        ("vi"@, "Vietnamese"@),
        ("ro"@, "Romanian"@),
        ("hu"@, "Hungarian"@),
        ("uk"@, "Ukrainian"@),
        ("fa"@, "Persian"@),
    ]
}

fn language_names_table() -> (r: Vec<(String, String)>)
    ensures
        crate::anime::pairs_view(r@) == language_names(),
{
    let mut v: Vec<(String, String)> = Vec::new();
    v.push(("en".to_owned(), "English".to_owned()));
    v.push(("fr".to_owned(), "French".to_owned()));
    v.push(("es".to_owned(), "Spanish".to_owned()));
    v.push(("de".to_owned(), "German".to_owned()));
    v.push(("it".to_owned(), "Italian".to_owned()));
    v.push(("pt".to_owned(), "Portuguese".to_owned()));
    v.push(("ru".to_owned(), "Russian".to_owned()));
    v.push(("ja".to_owned(), "Japanese".to_owned()));
    v.push(("ko".to_owned(), "Korean".to_owned()));
    v.push(("zh".to_owned(), "Chinese".to_owned()));
    v.push(("ar".to_owned(), "Arabic".to_owned()));
    v.push(("hi".to_owned(), "Hindi".to_owned()));
    v.push(("sv".to_owned(), "Swedish".to_owned()));
    v.push(("da".to_owned(), "Danish".to_owned()));
    v.push(("no".to_owned(), "Norwegian".to_owned()));
    v.push(("fi".to_owned(), "Finnish".to_owned()));
    v.push(("nl".to_owned(), "Dutch".to_owned()));
    v.push(("pl".to_owned(), "Polish".to_owned()));
    v.push(("tr".to_owned(), "Turkish".to_owned()));
    v.push(("cs".to_owned(), "Czech".to_owned()));
    v.push(("el".to_owned(), "Greek".to_owned()));
    v.push(("he".to_owned(), "Hebrew".to_owned()));
    v.push(("id".to_owned(), "Indonesian".to_owned()));
    v.push(("ms".to_owned(), "Malay".to_owned()));
    v.push(("th".to_owned(), "Thai".to_owned()));
    v.push(("vi".to_owned(), "Vietnamese".to_owned()));
    v.push(("ro".to_owned(), "Romanian".to_owned()));
    v.push(("hu".to_owned(), "Hungarian".to_owned()));
    v.push(("uk".to_owned(), "Ukrainian".to_owned()));
    v.push(("fa".to_owned(), "Persian".to_owned()));
    assert(crate::anime::pairs_view(v@) =~= language_names());
    v
}

pub open spec fn language_name_spec(code: Seq<char>) -> Seq<char> {
    match crate::anime::table_lookup(language_names(), code) {
        Some(x) => x,
        None => code,
    }
}

/// The name of the language with code `code`, or the code itself when it
/// is not one of those known.
pub fn language_name(code: &str) -> (r: Option<String>)
    ensures
        r matches Some(n) && n@ == language_name_spec(code@),
{
    match crate::anime::lookup_in(&language_names_table(), code) {
        Some(n) => Some(n),
        None => Some(code.to_owned()),
    }
}

#[derive(Clone, Debug)]
pub struct Image {
    pub file_path: String,
    pub iso_639_1: Option<String>,
}

#[derive(Clone, Debug)]
pub struct ImageResponse {
    pub posters: Vec<Image>,
}

pub open spec fn in_language(lang: Seq<char>) -> spec_fn(Image) -> bool {
    |i: Image| i.iso_639_1 is Some && i.iso_639_1->0@ == lang
}

/// The poster to show: the first in the preferred language, else the
/// first of all, as a full address.
pub open spec fn select_poster_spec(images: Option<ImageResponse>, lang: Option<Seq<char>>) -> Option<Seq<char>> {
    match images {
        None => None,
        Some(im) => {
            let ps = im.posters@;
            let chosen: int = match lang {
                Some(l) => if first_index(ps, in_language(l)) < ps.len() {
                    first_index(ps, in_language(l))
                } else {
                    0
                },
                None => 0,
            };
            if ps.len() == 0 {
                None
            } else {
                Some(image_base() + ps[chosen].file_path@)
            }
        },
    }
}

pub fn select_poster(images: Option<&ImageResponse>, preferred_lang: Option<&str>) -> (r: Option<String>)
    ensures
        match r {
            Some(u) => select_poster_spec(
                match images {
                    Some(i) => Some(*i),
                    None => None,
                },
                crate::signature::opt_view(preferred_lang),
            ) == Some(u@),
            None => select_poster_spec(
                match images {
                    Some(i) => Some(*i),
                    None => None,
                },
                crate::signature::opt_view(preferred_lang),
            ) is None,
        },
{
    let im = match images {
        None => return None,
        Some(i) => i,
    };
    let ps = &im.posters;
    let mut chosen: usize = 0;
    match preferred_lang {
        Some(l) => {
            let lc = chars_of(l);
            let mut i: usize = 0;
            while i < ps.len()
                invariant
                    i <= ps@.len(),
                    lc@ == l@,
                    forall|k: int| 0 <= k < i ==> !in_language(l@)(#[trigger] ps@[k]),
                ensures
                    i <= ps@.len(),
                    forall|k: int| 0 <= k < i ==> !in_language(l@)(#[trigger] ps@[k]),
                    i == ps@.len() || in_language(l@)(ps@[i as int]),
                decreases ps@.len() - i,
            {
                let hit = match &ps[i].iso_639_1 {
                    Some(x) => chars_eq(chars_of(x.as_str()).as_slice(), lc.as_slice()),
                    None => false,
                };
                if hit {
                    break;
                }
                i = i + 1;
            }
            proof {
                lemma_first_index_is(ps@, in_language(l@), i as int);
            }
            if i < ps.len() {
                chosen = i;
            }
        },
        None => {},
    }
    if ps.len() == 0 {
        return None;
    }
    let mut out = chars_of("https://image.tmdb.org/t/p/original");
    let path = chars_of(ps[chosen].file_path.as_str());
    append_chars(&mut out, path.as_slice());
    Some(string_of(out.as_slice()))
}

#[derive(Clone, Debug)]
pub struct CrewMember {
    pub job: Option<String>,
    pub name: String,
}

#[derive(Clone, Debug)]
pub struct Credits {
    pub cast: Vec<CastMember>,
    pub crew: Option<Vec<CrewMember>>,
}

/// A movie as the catalog describes it; the runtime in whole minutes.
#[derive(Clone, Debug)]
pub struct MovieDetail {
    pub id: i32,
    pub title: String,
    pub original_title: String,
    pub overview: String,
    pub release_date: Option<String>,
    pub runtime: Option<i64>,
    pub original_language: String,
    pub origin_country: Option<Vec<String>>,
    pub production_countries: Option<Vec<ProductionCountry>>,
    pub poster_path: Option<String>,
    pub backdrop_path: Option<String>,
    pub genres: Option<Vec<Genre>>,
}

/// Whether titles in this original language are shown in the original,
/// with the English title kept beside: French and Spanish.
pub open spec fn keeps_original(lang: Seq<char>) -> bool {
    lang == seq!['f', 'r'] || lang == seq!['e', 's']
}

/// The language whose posters are preferred, for those same languages.
pub fn preferred_poster_language(original_language: &str) -> (r: Option<String>)
    ensures
        keeps_original(original_language@) <==> r is Some,
        r matches Some(l) ==> l@ == original_language@,
{
    let cs = chars_of(original_language);
    let fr: Vec<char> = vec!['f', 'r'];
    let es: Vec<char> = vec!['e', 's'];
    assert(fr@ =~= seq!['f', 'r']);
    assert(es@ =~= seq!['e', 's']);
    if chars_eq(cs.as_slice(), fr.as_slice()) || chars_eq(cs.as_slice(), es.as_slice()) {
        Some(string_of(cs.as_slice()))
    } else {
        None
    }
}

pub open spec fn director_job() -> spec_fn(CrewMember) -> bool {
    |c: CrewMember| c.job is Some && c.job->0@ == seq!['D', 'i', 'r', 'e', 'c', 't', 'o', 'r']
}

/// The names of the crew members whose job is "Director", in order.
pub open spec fn directors_spec(crew: Seq<CrewMember>) -> Seq<Seq<char>>
    decreases crew.len(),
{
    if crew.len() == 0 {
        Seq::empty()
    } else {
        let p = directors_spec(crew.drop_last());
        if director_job()(crew.last()) {
            p.push(crew.last().name@)
        } else {
            p
        }
    }
}

pub fn directors(crew: &Option<Vec<CrewMember>>) -> (r: Vec<String>)
    ensures
        views(r@) == match crew {
            Some(c) => directors_spec(c@),
            None => Seq::empty(),
        },
{
    let mut out: Vec<String> = Vec::new();
    match crew {
        None => {
            assert(views(out@) =~= Seq::<Seq<char>>::empty());
            out
        },
        Some(c) => {
            let d: Vec<char> = vec!['D', 'i', 'r', 'e', 'c', 't', 'o', 'r'];
            assert(d@ =~= seq!['D', 'i', 'r', 'e', 'c', 't', 'o', 'r']);
            let mut i: usize = 0;
            assert(views(out@) =~= Seq::<Seq<char>>::empty());
            while i < c.len()
                invariant
                    i <= c@.len(),
                    d@ == seq!['D', 'i', 'r', 'e', 'c', 't', 'o', 'r'],
                    views(out@) == directors_spec(c@.take(i as int)),
                decreases c@.len() - i,
            {
                assert(c@.take(i as int + 1).drop_last() =~= c@.take(i as int));
                assert(c@.take(i as int + 1).last() == c@[i as int]);
                let hit = match &c[i].job {
                    Some(j) => chars_eq(chars_of(j.as_str()).as_slice(), d.as_slice()),
                    None => false,
                };
                if hit {
                    let ghost o0 = views(out@);
                    out.push(c[i].name.clone());
                    assert(views(out@) =~= o0.push(c@[i as int].name@));
                }
                i = i + 1;
            }
            assert(c@.take(c@.len() as int) =~= c@);
            out
        },
    }
}

pub open spec fn image_base() -> Seq<char> {
    "https://image.tmdb.org/t/p/original"@
}

pub open spec fn imdb_title_base() -> Seq<char> {
    "https://www.imdb.com/title/"@
}

fn prefixed(base: &str, tail: &String) -> (r: String)
    ensures
        r@ == base@ + tail@,
{
    let mut out = chars_of(base);
    let t = chars_of(tail.as_str());
    append_chars(&mut out, t.as_slice());
    string_of(out.as_slice())
}

fn prefixed_opt(base: &str, tail: &Option<String>) -> (r: Option<String>)
    ensures
        match r {
            Some(x) => tail is Some && x@ == base@ + tail->0@,
            None => tail is None,
        },
{
    match tail {
        Some(t) => Some(prefixed(base, t)),
        None => None,
    }
}

/// The movie metadata built from the catalog's answers: the title in the
/// original for French and Spanish (the English one kept as English name),
/// the US certification, the directors, ten cast members, the trailer, the
/// poster (in the original language where one was found among `images`),
/// the backdrop and the IMDb page.
pub open spec fn movie_ok(
    d: MovieDetail,
    credits: Credits,
    release_dates: ReleaseDates,
    videos: Videos,
    imdb_id: Option<String>,
    images: Option<ImageResponse>,
    m: crate::media::MediaData,
) -> bool {
    let orig = keeps_original(d.original_language@);
    &&& m.id == d.id
    &&& m.name@ == if orig { d.original_title@ } else { d.title@ }
    &&& crate::media::opt_text(m.eng_name) == if orig { Some(d.title@) } else { None }
    &&& m.original_title is None
    &&& crate::media::opt_text(m.synopsis) == Some(d.overview@)
    &&& crate::media::opt_text(m.content_rating) == us_cert_spec(release_dates)
    &&& views(m.director@) == match credits.crew {
        Some(c) => directors_spec(c@),
        None => Seq::empty(),
    }
    &&& views(m.cast@) == credits.cast@.take(if 10 < credits.cast@.len() { 10 } else { credits.cast@.len() as int }).map_values(
        |c: CastMember| c.name@,
    )
    &&& crate::media::opt_text(m.trailer) == select_trailer_spec(videos)
    &&& crate::media::opt_text(m.poster) == {
        let from_path = match d.poster_path {
            Some(p) => Some(image_base() + p@),
            None => None,
        };
        if orig {
            match select_poster_spec(images, Some(d.original_language@)) {
                Some(x) => Some(x),
                None => from_path,
            }
        } else {
            from_path
        }
    }
    &&& crate::media::opt_text(m.backdrop) == match d.backdrop_path {
        Some(p) => Some(image_base() + p@),
        None => None,
    }
    &&& crate::media::opt_text(m.imdb_page) == match imdb_id {
        Some(i) => Some(imdb_title_base() + i@),
        None => None,
    }
    &&& m.release_date == d.release_date
    &&& crate::media::opt_text(m.year) == year_spec(d.release_date)
    &&& views(m.genres@) == genre_names(d.genres)
    &&& views(m.country_of_origin@) == origin_spec(d.origin_country, d.production_countries)
    &&& crate::media::opt_text(m.language) == Some(language_name_spec(d.original_language@))
    &&& m.runtime_minutes == d.runtime
    &&& m.episodes is None
}

/// The year of an optional date.
pub open spec fn year_spec(date: Option<String>) -> Option<Seq<char>> {
    match date {
        Some(r) => Some(r@.take(crate::synopsis::find_char(r@, '-'))),
        None => None,
    }
}

/// Builds the movie metadata from the catalog's answers. `images` are the
/// posters fetched for the preferred language, if any were.
pub fn movie_data(
    d: &MovieDetail,
    credits: &Credits,
    release_dates: &ReleaseDates,
    videos: &Videos,
    imdb_id: &Option<String>,
    images: Option<&ImageResponse>,
) -> (r: crate::media::MediaData)
    ensures
        movie_ok(
            *d,
            *credits,
            *release_dates,
            *videos,
            *imdb_id,
            match images {
                Some(i) => Some(*i),
                None => None,
            },
            r,
        ),
{
    let pref = preferred_poster_language(d.original_language.as_str());
    let orig = pref.is_some();
    let from_path = prefixed_opt("https://image.tmdb.org/t/p/original", &d.poster_path);
    let poster = match &pref {
        Some(l) => match select_poster(images, Some(l.as_str())) {
            Some(x) => Some(x),
            None => from_path,
        },
        None => from_path,
    };
    let country = origin_country(
        match &d.origin_country {
            Some(o) => Some(o),
            None => None,
        },
        match &d.production_countries {
            Some(p) => Some(p),
            None => None,
        },
    );
    let genres = names(match &d.genres {
        Some(g) => Some(g),
        None => None,
    });
    let year = match &d.release_date {
        Some(r) => extract_year(r.as_str()),
        None => None,
    };
    crate::media::MediaData {
        id: d.id,
        name: if orig {
            d.original_title.clone()
        } else {
            d.title.clone()
        },
        eng_name: if orig {
            Some(d.title.clone())
        } else {
            None
        },
        original_title: None,
        synopsis: Some(d.overview.clone()),
        genres,
        cast: top_names(&credits.cast, 10),
        director: directors(&credits.crew),
        content_rating: us_cert_from_release_dates(release_dates),
        country_of_origin: country,
        language: language_name(d.original_language.as_str()),
        release_date: match &d.release_date {
            Some(r) => Some(r.clone()),
            None => None,
        },
        year,
        runtime_minutes: d.runtime,
        episodes: None,
        trailer: select_trailer(videos),
        poster,
        backdrop: prefixed_opt("https://image.tmdb.org/t/p/original", &d.backdrop_path),
        imdb_page: prefixed_opt("https://www.imdb.com/title/", imdb_id),
    }
}

#[derive(Clone, Debug)]
pub struct Creator {
    pub name: String,
}

/// A TV show as the catalog describes it.
#[derive(Clone, Debug)]
pub struct ShowDetail {
    pub id: i32,
    pub name: String,
    pub original_name: String,
    pub overview: String,
    pub original_language: String,
    pub origin_country: Vec<String>,
    pub poster_path: Option<String>,
    pub backdrop_path: Option<String>,
    pub genres: Option<Vec<Genre>>,
    pub episode_run_time: Option<Vec<i32>>,
    pub created_by: Option<Vec<Creator>>,
}

#[derive(Clone, Debug)]
pub struct Episode {
    pub runtime: Option<i32>,
}

/// One season of a TV show as the catalog describes it.
#[derive(Clone, Debug)]
pub struct SeasonDetail {
    pub name: Option<String>,
    pub overview: String,
    pub air_date: Option<String>,
    pub poster_path: Option<String>,
    pub episodes: Vec<Episode>,
}

/// The TV season metadata built from the catalog's answers: as for a movie,
/// with the season's overview (the show's when it is empty), the show's
/// creators as directors, the season's trailer before the show's, the
/// number of episodes, and a poster from the season's images, the show's
/// images, the season's poster or the show's, in that order.
pub open spec fn tv_ok(
    show: ShowDetail,
    season: SeasonDetail,
    credits: Credits,
    ratings: ContentRatings,
    season_videos: Videos,
    show_videos: Videos,
    imdb_id: Option<String>,
    season_images: Option<ImageResponse>,
    show_images: Option<ImageResponse>,
    runtime_minutes: Option<i64>,
    m: crate::media::MediaData,
) -> bool {
    let orig = keeps_original(show.original_language@);
    let from_path = match season.poster_path {
        Some(p) => Some(image_base() + p@),
        None => match show.poster_path {
            Some(p) => Some(image_base() + p@),
            None => None,
        },
    };
    &&& m.id == show.id
    &&& m.name@ == if orig { show.original_name@ } else { show.name@ }
    &&& crate::media::opt_text(m.eng_name) == if orig { Some(show.name@) } else { None }
    &&& crate::media::opt_text(m.synopsis) == Some(if season.overview@.len() == 0 { show.overview@ } else { season.overview@ })
    &&& crate::media::opt_text(m.content_rating) == us_rating_spec(ratings)
    &&& views(m.director@) == match show.created_by {
        Some(c) => c@.map_values(|x: Creator| x.name@),
        None => Seq::empty(),
    }
    &&& views(m.cast@) == credits.cast@.take(if 10 < credits.cast@.len() { 10 } else { credits.cast@.len() as int }).map_values(
        |c: CastMember| c.name@,
    )
    &&& crate::media::opt_text(m.trailer) == match select_trailer_spec(season_videos) {
        Some(t) => Some(t),
        None => select_trailer_spec(show_videos),
    }
    &&& crate::media::opt_text(m.poster) == if orig {
        match select_poster_spec(season_images, Some(show.original_language@)) {
            Some(x) => Some(x),
            None => match select_poster_spec(show_images, Some(show.original_language@)) {
                Some(x) => Some(x),
                None => from_path,
            },
        }
    } else {
        from_path
    }
    &&& views(m.country_of_origin@) == views(show.origin_country@)
    &&& m.release_date == season.air_date
    &&& crate::media::opt_text(m.year) == year_spec(season.air_date)
    &&& views(m.genres@) == genre_names(show.genres)
    &&& crate::media::opt_text(m.language) == Some(language_name_spec(show.original_language@))
    &&& m.original_title is None
    &&& crate::media::opt_text(m.backdrop) == match show.backdrop_path {
        Some(p) => Some(image_base() + p@),
        None => None,
    }
    &&& m.runtime_minutes == runtime_minutes
    &&& m.episodes == Some(season.episodes@.len() as i64)
    &&& crate::media::opt_text(m.imdb_page) == match imdb_id {
        Some(i) => Some(imdb_title_base() + i@),
        None => None,
    }
}

fn creator_names(c: &Option<Vec<Creator>>) -> (r: Vec<String>)
    ensures
        views(r@) == match c {
            Some(v) => v@.map_values(|x: Creator| x.name@),
            None => Seq::empty(),
        },
{
    let mut out: Vec<String> = Vec::new();
    match c {
        None => {
            assert(views(out@) =~= Seq::<Seq<char>>::empty());
            out
        },
        Some(v) => {
            let mut i: usize = 0;
            while i < v.len()
                invariant
                    i <= v@.len(),
                    views(out@) == v@.take(i as int).map_values(|x: Creator| x.name@),
                decreases v@.len() - i,
            {
                let ghost o0 = views(out@);
                out.push(v[i].name.clone());
                assert(views(out@) =~= o0.push(v@[i as int].name@));
                assert(v@.take(i as int + 1).map_values(|x: Creator| x.name@) =~= v@.take(i as int).map_values(
                    |x: Creator| x.name@,
                ).push(v@[i as int].name@));
                i = i + 1;
            }
            assert(v@.take(v@.len() as int) =~= v@);
            out
        },
    }
}

/// Builds the TV season metadata from the catalog's answers. The images
/// are those fetched for the preferred language, if any were; the runtime
/// is the episodes' average, in whole minutes.
pub fn tv_season_data(
    show: &ShowDetail,
    season: &SeasonDetail,
    credits: &Credits,
    ratings: &ContentRatings,
    season_videos: &Videos,
    show_videos: &Videos,
    imdb_id: &Option<String>,
    season_images: Option<&ImageResponse>,
    show_images: Option<&ImageResponse>,
    runtime_minutes: Option<i64>,
) -> (r: crate::media::MediaData)
    ensures
        tv_ok(
            *show,
            *season,
            *credits,
            *ratings,
            *season_videos,
            *show_videos,
            *imdb_id,
            match season_images {
                Some(i) => Some(*i),
                None => None,
            },
            match show_images {
                Some(i) => Some(*i),
                None => None,
            },
            runtime_minutes,
            r,
        ),
{
    let pref = preferred_poster_language(show.original_language.as_str());
    let orig = pref.is_some();
    let from_path = match &season.poster_path {
        Some(p) => Some(prefixed("https://image.tmdb.org/t/p/original", p)),
        None => prefixed_opt("https://image.tmdb.org/t/p/original", &show.poster_path),
    };
    let poster = match &pref {
        Some(l) => match select_poster(season_images, Some(l.as_str())) {
            Some(x) => Some(x),
            None => match select_poster(show_images, Some(l.as_str())) {
                Some(x) => Some(x),
                None => from_path,
            },
        },
        None => from_path,
    };
    let trailer = match select_trailer(season_videos) {
        Some(t) => Some(t),
        None => select_trailer(show_videos),
    };
    let synopsis = if season.overview.as_str().is_empty() {
        show.overview.clone()
    } else {
        season.overview.clone()
    };
    let year = match &season.air_date {
        Some(r) => extract_year(r.as_str()),
        None => None,
    };
    crate::media::MediaData {
        id: show.id,
        name: if orig {
            show.original_name.clone()
        } else {
            show.name.clone()
        },
        eng_name: if orig {
            Some(show.name.clone())
        } else {
            None
        },
        original_title: None,
        synopsis: Some(synopsis),
        genres: names(match &show.genres {
            Some(g) => Some(g),
            None => None,
        }),
        cast: top_names(&credits.cast, 10),
        director: creator_names(&show.created_by),
        content_rating: us_rating(ratings),
        country_of_origin: crate::media::copy_list(&show.origin_country),
        language: language_name(show.original_language.as_str()),
        release_date: match &season.air_date {
            Some(r) => Some(r.clone()),
            None => None,
        },
        year,
        runtime_minutes,
        episodes: Some(season.episodes.len() as i64),
        trailer,
        poster,
        backdrop: prefixed_opt("https://image.tmdb.org/t/p/original", &show.backdrop_path),
        imdb_page: prefixed_opt("https://www.imdb.com/title/", imdb_id),
    }
}

} // verus!
