//! Normalised catalog metadata and the record update built from it.
use vstd::prelude::*;
use crate::encode::{Update, ValueInput, ValueView, WriteView, set_value, set_title, encode_spec, declared_or};
use crate::schema::{PropertySchema, SchemaView, TypeView};
use crate::text::{chars_of, string_of, trim, trim_chars, chars_eq, views};
use crate::anime::{
    strip_trailing_season_suffix, strip_season_spec, with_anime_tags, with_tags_spec, MediaTitle, Trailer,
    choose_titles, titles_spec, is_director_role, is_director_spec, dedupe_preserve_order, dedupe,
    country_name_from_code, country_pairs, language_from_country, language_pairs, table_lookup,
    content_rating_from_is_adult, fuzzy_date_to_string, fuzzy_date_text, trailer_url, trailer_url_spec,
};
use crate::relations::FuzzyDate;
use crate::synopsis::{clean_anilist_synopsis, clean_synopsis_spec, find_char};

verus! {

/// Movie or TV season metadata from the movie and TV catalog.
#[derive(Clone, Debug)]
pub struct MediaData {
    pub id: i32,
    pub name: String,
    pub eng_name: Option<String>,
    pub original_title: Option<String>,
    pub synopsis: Option<String>,
    pub genres: Vec<String>,
    pub cast: Vec<String>,
    pub director: Vec<String>,
    pub content_rating: Option<String>,
    pub country_of_origin: Vec<String>,
    pub language: Option<String>,
    pub release_date: Option<String>,
    pub year: Option<String>,
    /// Whole minutes.
    pub runtime_minutes: Option<i64>,
    pub episodes: Option<i64>,
    pub trailer: Option<String>,
    pub poster: Option<String>,
    pub backdrop: Option<String>,
    pub imdb_page: Option<String>,
}

/// Anime metadata from the anime catalog.
#[derive(Clone, Debug)]
pub struct AniListMapped {
    pub id: i32,
    pub id_mal: Option<i32>,
    pub name: String,
    pub eng_name: Option<String>,
    pub original_title: Option<String>,
    pub synopsis: Option<String>,
    pub genres: Vec<String>,
    pub cast: Vec<String>,
    pub director: Vec<String>,
    pub is_adult: bool,
    pub content_rating: String,
    pub country_of_origin: Option<String>,
    pub language: Option<String>,
    pub release_date: Option<String>,
    pub year: Option<String>,
    /// Whole minutes.
    pub runtime_minutes: Option<i64>,
    pub episodes: Option<i64>,
    pub trailer: Option<String>,
    pub poster: Option<String>,
    pub backdrop: Option<String>,
    pub imdb_page: Option<String>,
}

/// A write planned for one property: the title, or a value.
#[derive(Clone, Debug)]
pub enum Planned {
    Title(String),
    Value(ValueInput),
}

pub enum PlannedView {
    Title(Seq<char>),
    Value(ValueView),
}

impl View for Planned {
    type V = PlannedView;

    open spec fn view(&self) -> PlannedView {
        match self {
            Planned::Title(s) => PlannedView::Title(s@),
            Planned::Value(v) => PlannedView::Value(v@),
        }
    }
}

pub open spec fn plan_view(p: Seq<(String, Planned)>) -> Seq<(Seq<char>, PlannedView)> {
    p.map_values(|e: (String, Planned)| (e.0@, e.1@))
}

/// The write a planned item makes under `schema`, if any.
pub open spec fn planned_result(schema: SchemaView, name: Seq<char>, p: PlannedView) -> Option<WriteView> {
    match p {
        PlannedView::Title(t) => Some(
            if declared_or(schema, name, TypeView::RichText) == TypeView::Title {
                WriteView::Title(t)
            } else {
                WriteView::RichText(t)
            },
        ),
        PlannedView::Value(v) => encode_spec(declared_or(schema, name, TypeView::RichText), v),
    }
}

/// The write that a plan leaves on property `name`: the last one made.
pub open spec fn written(schema: SchemaView, plan: Seq<(Seq<char>, PlannedView)>, name: Seq<char>) -> Option<WriteView>
    decreases plan.len(),
{
    if plan.len() == 0 {
        None
    } else if plan.last().0 == name && planned_result(schema, name, plan.last().1) is Some {
        planned_result(schema, name, plan.last().1)
    } else {
        written(schema, plan.drop_last(), name)
    }
}

/// Carries out a plan of writes under `schema`.
pub fn apply_plan(schema: &PropertySchema, plan: Vec<(String, Planned)>) -> (r: Update)
    ensures
        forall|n: Seq<char>| #[trigger] r.write_of(n) == written(schema@, plan_view(plan@), n),
{
    let mut u = Update::new();
    let mut i: usize = 0;
    while i < plan.len()
        invariant
            i <= plan@.len(),
            forall|n: Seq<char>| #[trigger] u.write_of(n) == written(schema@, plan_view(plan@).take(i as int), n),
        decreases plan@.len() - i,
    {
        let ghost t = plan_view(plan@).take(i as int + 1);
        assert(t.drop_last() =~= plan_view(plan@).take(i as int));
        assert(t.last() == (plan@[i as int].0@, plan@[i as int].1@));
        let name = plan[i].0.as_str();
        match &plan[i].1 {
            Planned::Title(s) => set_title(&mut u, name, s.as_str(), schema),
            Planned::Value(v) => set_value(&mut u, name, Some(v.clone_value()), schema),
        }
        i = i + 1;
    }
    assert(plan_view(plan@).take(plan@.len() as int) =~= plan_view(plan@));
    u
}

impl ValueInput {
    /// A copy of the value.
    pub fn clone_value(&self) -> (r: ValueInput)
        ensures
            r@ == self@,
    {
        match self {
            ValueInput::Text(s) => ValueInput::Text(s.clone()),
            ValueInput::StringList(l) => {
                let mut out: Vec<String> = Vec::new();
                let mut i: usize = 0;
                while i < l.len()
                    invariant
                        i <= l@.len(),
                        views(out@) == views(l@).take(i as int),
                    decreases l@.len() - i,
                {
                    let c = l[i].clone();
                    let ghost o0 = out@;
                    out.push(c);
                    assert(views(out@) =~= views(o0).push(l@[i as int]@));
                    i = i + 1;
                }
                assert(views(l@).take(l@.len() as int) =~= views(l@));
                ValueInput::StringList(out)
            },
            ValueInput::Number(n) => ValueInput::Number(*n),
            ValueInput::Url(s) => ValueInput::Url(s.clone()),
            ValueInput::Date(s) => ValueInput::Date(s.clone()),
        }
    }
}

/// One planned value, or nothing when the value is absent.
pub open spec fn item(name: Seq<char>, v: Option<ValueView>) -> Seq<(Seq<char>, PlannedView)> {
    match v {
        Some(x) => seq![(name, PlannedView::Value(x))],
        None => Seq::empty(),
    }
}

pub open spec fn text_v(s: Option<String>) -> Option<ValueView> {
    match s {
        Some(x) => Some(ValueView::Text(x@)),
        None => None,
    }
}

pub open spec fn url_v(s: Option<String>) -> Option<ValueView> {
    match s {
        Some(x) => Some(ValueView::Url(x@)),
        None => None,
    }
}

pub open spec fn date_v(s: Option<String>) -> Option<ValueView> {
    match s {
        Some(x) => Some(ValueView::Date(x@)),
        None => None,
    }
}

pub open spec fn num_v(n: Option<i64>) -> Option<ValueView> {
    match n {
        Some(x) => Some(ValueView::Number(x as int)),
        None => None,
    }
}

pub open spec fn list_v(l: Vec<String>) -> Option<ValueView> {
    Some(ValueView::StringList(views(l@)))
}

fn push_item(plan: &mut Vec<(String, Planned)>, name: &str, v: Option<ValueInput>)
    ensures
        plan_view(final(plan)@) == plan_view(old(plan)@) + item(
            name@,
            match v {
                Some(x) => Some(x@),
                None => None,
            },
        ),
{
    match v {
        Some(x) => {
            let ghost before = plan_view(plan@);
            plan.push((name.to_owned(), Planned::Value(x)));
            assert(plan_view(plan@) =~= before + item(name@, Some(x@)));
        },
        None => {
            assert(plan_view(plan@) =~= plan_view(plan@) + Seq::<(Seq<char>, PlannedView)>::empty());
        },
    }
}

fn text_in(s: &Option<String>) -> (r: Option<ValueInput>)
    ensures
        match r {
            Some(x) => Some(x@),
            None => None,
        } == text_v(*s),
{
    match s {
        Some(x) => Some(ValueInput::Text(x.clone())),
        None => None,
    }
}

fn url_in(s: &Option<String>) -> (r: Option<ValueInput>)
    ensures
        match r {
            Some(x) => Some(x@),
            None => None,
        } == url_v(*s),
{
    match s {
        Some(x) => Some(ValueInput::Url(x.clone())),
        None => None,
    }
}

fn date_in(s: &Option<String>) -> (r: Option<ValueInput>)
    ensures
        match r {
            Some(x) => Some(x@),
            None => None,
        } == date_v(*s),
{
    match s {
        Some(x) => Some(ValueInput::Date(x.clone())),
        None => None,
    }
}

fn num_in(n: Option<i64>) -> (r: Option<ValueInput>)
    ensures
        match r {
            Some(x) => Some(x@),
            None => None,
        } == num_v(n),
{
    match n {
        Some(x) => Some(ValueInput::Number(x)),
        None => None,
    }
}

fn list_in(l: &Vec<String>) -> (r: Option<ValueInput>)
    ensures
        match r {
            Some(x) => Some(x@),
            None => None,
        } == list_v(*l),
{
    Some(ValueInput::StringList(copy_list(l)))
}

/// A copy of the strings of `l`.
pub fn copy_list(l: &Vec<String>) -> (r: Vec<String>)
    ensures
        views(r@) == views(l@),
{
    let mut out: Vec<String> = Vec::new();
    let mut i: usize = 0;
    while i < l.len()
        invariant
            i <= l@.len(),
            views(out@) == views(l@).take(i as int),
        decreases l@.len() - i,
    {
        let c = l[i].clone();
        let ghost o0 = out@;
        out.push(c);
        assert(views(out@) =~= views(o0).push(l@[i as int]@));
        i = i + 1;
    }
    assert(views(l@).take(l@.len() as int) =~= views(l@));
    out
}

/// The title, then the names: the English name when the catalog gave one,
/// else the original title when it differs from the title.
pub open spec fn tmdb_names(m: MediaData, title_property: Seq<char>) -> Seq<(Seq<char>, PlannedView)> {
    seq![(title_property, PlannedView::Title(m.name@))] + match m.eng_name {
        Some(e) => seq![("Eng Name"@, PlannedView::Value(ValueView::Text(e@)))],
        None => match m.original_title {
            Some(o) => if trim(o@) != trim(m.name@) {
                seq![("Original Title"@, PlannedView::Value(ValueView::Text(o@)))]
            } else {
                Seq::empty()
            },
            None => Seq::empty(),
        },
    }
}

/// The writes made for movie or TV metadata, in order.
pub open spec fn tmdb_plan(m: MediaData, title_property: Seq<char>) -> Seq<(Seq<char>, PlannedView)> {
    tmdb_names(m, title_property) + item("Synopsis"@, text_v(m.synopsis)) + item("Genre"@, list_v(m.genres))
        + item("Cast"@, list_v(m.cast)) + item("Director"@, list_v(m.director)) + item(
        "Content Rating"@,
        text_v(m.content_rating),
    ) + item("Country of origin"@, list_v(m.country_of_origin)) + item("Language"@, text_v(m.language))
        + item("Release Date"@, date_v(m.release_date)) + item("Year"@, text_v(m.year)) + item(
        "Runtime"@,
        num_v(m.runtime_minutes),
    ) + item("Episodes"@, num_v(m.episodes)) + item("Trailer"@, url_v(m.trailer)) + item(
        "IMG"@,
        url_v(m.poster),
    ) + item("IMDb Page"@, url_v(m.imdb_page)) + item("ID"@, Some(ValueView::Number(m.id as int)))
}

fn tmdb_names_exec(m: &MediaData, title_property: &str) -> (r: Vec<(String, Planned)>)
    ensures
        plan_view(r@) == tmdb_names(*m, title_property@),
{
    let mut plan: Vec<(String, Planned)> = Vec::new();
    plan.push((title_property.to_owned(), Planned::Title(m.name.clone())));
    let ghost first = plan_view(plan@);
    assert(first =~= seq![(title_property@, PlannedView::Title(m.name@))]);
    match &m.eng_name {
        Some(e) => {
            plan.push(("Eng Name".to_owned(), Planned::Value(ValueInput::Text(e.clone()))));
            assert(plan_view(plan@) =~= tmdb_names(*m, title_property@));
        },
        None => match &m.original_title {
            Some(o) => {
                let a = trim_chars(chars_of(o.as_str()).as_slice());
                let b = trim_chars(chars_of(m.name.as_str()).as_slice());
                if !chars_eq(a.as_slice(), b.as_slice()) {
                    plan.push(("Original Title".to_owned(), Planned::Value(ValueInput::Text(o.clone()))));
                    assert(plan_view(plan@) =~= tmdb_names(*m, title_property@));
                } else {
                    assert(plan_view(plan@) =~= tmdb_names(*m, title_property@));
                }
            },
            None => {
                assert(plan_view(plan@) =~= tmdb_names(*m, title_property@));
            },
        },
    }
    plan
}

/// The plan of writes for movie or TV metadata.
pub fn tmdb_plan_exec(m: &MediaData, title_property: &str) -> (r: Vec<(String, Planned)>)
    ensures
        plan_view(r@) == tmdb_plan(*m, title_property@),
{
    let mut plan = tmdb_names_exec(m, title_property);
    push_item(&mut plan, "Synopsis", text_in(&m.synopsis));
    push_item(&mut plan, "Genre", list_in(&m.genres));
    push_item(&mut plan, "Cast", list_in(&m.cast));
    push_item(&mut plan, "Director", list_in(&m.director));
    push_item(&mut plan, "Content Rating", text_in(&m.content_rating));
    push_item(&mut plan, "Country of origin", list_in(&m.country_of_origin));
    push_item(&mut plan, "Language", text_in(&m.language));
    push_item(&mut plan, "Release Date", date_in(&m.release_date));
    push_item(&mut plan, "Year", text_in(&m.year));
    push_item(&mut plan, "Runtime", num_in(m.runtime_minutes));
    push_item(&mut plan, "Episodes", num_in(m.episodes));
    push_item(&mut plan, "Trailer", url_in(&m.trailer));
    push_item(&mut plan, "IMG", url_in(&m.poster));
    push_item(&mut plan, "IMDb Page", url_in(&m.imdb_page));
    push_item(&mut plan, "ID", Some(ValueInput::Number(m.id as i64)));
    plan
}

/// The writes made for anime metadata, in order: the English-name field is
/// blanked, the genres carry the anime tags, and season suffixes are
/// removed from the titles.
pub open spec fn anime_plan(a: AniListMapped, title_property: Seq<char>) -> Seq<(Seq<char>, PlannedView)> {
    anime_head(a, title_property) + anime_details(a)
}

/// The original title without its season suffix.
pub open spec fn original_v(a: AniListMapped) -> Option<ValueView> {
    match a.original_title {
        Some(o) => Some(ValueView::Text(strip_season_spec(o@))),
        None => None,
    }
}

/// The anime writes up to the genres.
pub open spec fn anime_head(a: AniListMapped, title_property: Seq<char>) -> Seq<(Seq<char>, PlannedView)> {
    seq![(title_property, PlannedView::Title(strip_season_spec(a.name@)))] + item(
        "Eng Name"@,
        Some(ValueView::Text(Seq::empty())),
    ) + item("Original Title"@, original_v(a)) + item("Synopsis"@, text_v(a.synopsis)) + item(
        "Genre"@,
        Some(ValueView::StringList(with_tags_spec(views(a.genres@)))),
    )
}

/// The anime writes that follow the genres.
pub open spec fn anime_details(a: AniListMapped) -> Seq<(Seq<char>, PlannedView)> {
    item("Cast"@, list_v(a.cast)) + item("Director"@, list_v(a.director)) + item(
        "Content Rating"@,
        Some(ValueView::Text(a.content_rating@)),
    ) + item(
        "Country of origin"@,
        match a.country_of_origin {
            Some(c) => Some(ValueView::StringList(seq![c@])),
            None => None,
        },
    ) + item("Language"@, text_v(a.language)) + item("Release Date"@, date_v(a.release_date)) + item(
        "Year"@,
        text_v(a.year),
    ) + item("Runtime"@, num_v(a.runtime_minutes)) + item("Episodes"@, num_v(a.episodes)) + item(
        "Trailer"@,
        url_v(a.trailer),
    ) + item("IMG"@, url_v(a.poster)) + item("IMDb Page"@, url_v(a.imdb_page)) + item(
        "ID"@,
        Some(ValueView::Number(a.id as int)),
    )
}

/// The plan of writes for anime metadata.
pub fn anime_plan_exec(a: &AniListMapped, title_property: &str) -> (r: Vec<(String, Planned)>)
    ensures
        plan_view(r@) == anime_plan(*a, title_property@),
{
    let mut plan = anime_head_exec(a, title_property);
    let details = anime_details_exec(a);
    append_plan(&mut plan, &details);
    plan
}

fn anime_head_exec(a: &AniListMapped, title_property: &str) -> (r: Vec<(String, Planned)>)
    ensures
        plan_view(r@) == anime_head(*a, title_property@),
{
    let name = strip_trailing_season_suffix(a.name.as_str());
    let ghost n = strip_season_spec(a.name@);
    let original = match &a.original_title {
        Some(o) => Some(ValueInput::Text(strip_trailing_season_suffix(o.as_str()))),
        None => None,
    };
    let ghost ov = original_v(*a);
    assert(match original {
        Some(x) => Some(x@),
        None => None,
    } == ov);
    let tagged = with_anime_tags(copy_list(&a.genres));
    let ghost tv = with_tags_spec(views(a.genres@));
    let mut plan: Vec<(String, Planned)> = Vec::new();
    plan.push((title_property.to_owned(), Planned::Title(name)));
    let ghost p1 = seq![(title_property@, PlannedView::Title(n))];
    assert(plan_view(plan@) =~= p1);
    let blank = string_of(&[]);
    assert(blank@ =~= Seq::<char>::empty());
    push_item(&mut plan, "Eng Name", Some(ValueInput::Text(blank)));
    let ghost p2 = p1 + item("Eng Name"@, Some(ValueView::Text(Seq::empty())));
    assert(plan_view(plan@) == p2);
    push_item(&mut plan, "Original Title", original);
    let ghost p3 = p2 + item("Original Title"@, ov);
    assert(plan_view(plan@) == p3);
    push_item(&mut plan, "Synopsis", text_in(&a.synopsis));
    let ghost p4 = p3 + item("Synopsis"@, text_v(a.synopsis));
    assert(plan_view(plan@) == p4);
    push_item(&mut plan, "Genre", Some(ValueInput::StringList(tagged)));
    assert(plan_view(plan@) == p4 + item("Genre"@, Some(ValueView::StringList(tv))));
    plan
}

fn anime_details_exec(a: &AniListMapped) -> (r: Vec<(String, Planned)>)
    ensures
        plan_view(r@) == anime_details(*a),
{
    let mut plan: Vec<(String, Planned)> = Vec::new();
    assert(plan_view(plan@) =~= Seq::<(Seq<char>, PlannedView)>::empty());
    push_item(&mut plan, "Cast", list_in(&a.cast));
    push_item(&mut plan, "Director", list_in(&a.director));
    push_item(&mut plan, "Content Rating", Some(ValueInput::Text(a.content_rating.clone())));
    let country = match &a.country_of_origin {
        Some(c) => {
            let l: Vec<String> = vec![c.clone()];
            assert(views(l@) =~= seq![c@]);
            Some(ValueInput::StringList(l))
        },
        None => None,
    };
    push_item(&mut plan, "Country of origin", country);
    push_item(&mut plan, "Language", text_in(&a.language));
    push_item(&mut plan, "Release Date", date_in(&a.release_date));
    push_item(&mut plan, "Year", text_in(&a.year));
    push_item(&mut plan, "Runtime", num_in(a.runtime_minutes));
    push_item(&mut plan, "Episodes", num_in(a.episodes));
    push_item(&mut plan, "Trailer", url_in(&a.trailer));
    push_item(&mut plan, "IMG", url_in(&a.poster));
    push_item(&mut plan, "IMDb Page", url_in(&a.imdb_page));
    push_item(&mut plan, "ID", Some(ValueInput::Number(a.id as i64)));
    plan
}

fn clone_entry(e: &(String, Planned)) -> (r: (String, Planned))
    ensures
        r.0@ == e.0@,
        r.1@ == e.1@,
{
    let v = match &e.1 {
        Planned::Title(t) => Planned::Title(t.clone()),
        Planned::Value(v) => Planned::Value(v.clone_value()),
    };
    (e.0.clone(), v)
}

/// Appends the planned writes of `more` to `plan`.
fn append_plan(plan: &mut Vec<(String, Planned)>, more: &Vec<(String, Planned)>)
    ensures
        plan_view(final(plan)@) == plan_view(old(plan)@) + plan_view(more@),
{
    let mut i: usize = 0;
    while i < more.len()
        invariant
            i <= more@.len(),
            plan_view(plan@) == plan_view(old(plan)@) + plan_view(more@).take(i as int),
        decreases more@.len() - i,
    {
        let ghost p0 = plan_view(plan@);
        let e = clone_entry(&more[i]);
        plan.push(e);
        assert(plan_view(plan@) =~= p0.push((more@[i as int].0@, more@[i as int].1@)));
        assert(plan_view(more@).take(i as int + 1) =~= plan_view(more@).take(i as int).push(
            (more@[i as int].0@, more@[i as int].1@),
        ));
        i = i + 1;
    }
    assert(plan_view(more@).take(more@.len() as int) =~= plan_view(more@));
}

/// A record update: property writes, and the icon and cover images as
/// external addresses.
#[derive(Clone, Debug)]
pub struct PageWrite {
    pub properties: Update,
    pub icon: Option<String>,
    pub cover: Option<String>,
}

/// The update written for movie or TV metadata: the planned property
/// writes, the poster as icon and the backdrop as cover.
pub fn tmdb_page_write(m: &MediaData, schema: &PropertySchema, title_property: &str) -> (r: PageWrite)
    ensures
        forall|n: Seq<char>|
            #[trigger] r.properties.write_of(n) == written(schema@, tmdb_plan(*m, title_property@), n),
        r.icon == m.poster,
        r.cover == m.backdrop,
{
    let plan = tmdb_plan_exec(m, title_property);
    PageWrite { properties: apply_plan(schema, plan), icon: m.poster.clone(), cover: m.backdrop.clone() }
}

/// The update written for anime metadata.
pub fn anime_page_write(a: &AniListMapped, schema: &PropertySchema, title_property: &str) -> (r: PageWrite)
    ensures
        forall|n: Seq<char>|
            #[trigger] r.properties.write_of(n) == written(schema@, anime_plan(*a, title_property@), n),
        r.icon == a.poster,
        r.cover == a.backdrop,
{
    let plan = anime_plan_exec(a, title_property);
    PageWrite { properties: apply_plan(schema, plan), icon: a.poster.clone(), cover: a.backdrop.clone() }
}

/// The update that flags a record: its title set to `marker`.
pub fn error_write(marker: &str, schema: &PropertySchema, title_property: &str) -> (r: PageWrite)
    ensures
        forall|n: Seq<char>|
            #[trigger] r.properties.write_of(n) == written(
                schema@,
                seq![(title_property@, PlannedView::Title(marker@))],
                n,
            ),
        r.icon is None,
        r.cover is None,
{
    let mut plan: Vec<(String, Planned)> = Vec::new();
    plan.push((title_property.to_owned(), Planned::Title(marker.to_owned())));
    assert(plan_view(plan@) =~= seq![(title_property@, PlannedView::Title(marker@))]);
    PageWrite { properties: apply_plan(schema, plan), icon: None, cover: None }
}

/// One staff credit: the role and the person's full name.
#[derive(Clone, Debug)]
pub struct StaffCredit {
    pub role: Option<String>,
    pub name: Option<String>,
}

/// Cover images in two sizes.
#[derive(Clone, Debug)]
pub struct CoverImage {
    pub extra_large: Option<String>,
    pub large: Option<String>,
}

/// An anime entry as the catalog describes it.
#[derive(Clone, Debug)]
pub struct Media {
    pub id: i32,
    pub id_mal: Option<i32>,
    pub title: Option<MediaTitle>,
    pub description: Option<String>,
    pub genres: Option<Vec<String>>,
    pub staff: Vec<StaffCredit>,
    /// The full names of the characters, where given.
    pub characters: Vec<Option<String>>,
    pub country_of_origin: Option<String>,
    pub is_adult: Option<bool>,
    pub start_date: Option<FuzzyDate>,
    pub duration: Option<i32>,
    pub episodes: Option<i32>,
    pub trailer: Option<Trailer>,
    pub cover_image: Option<CoverImage>,
    pub banner_image: Option<String>,
    pub site_url: Option<String>,
}

/// The names of the credits whose role is a directing one, in order.
pub open spec fn director_names(staff: Seq<StaffCredit>) -> Seq<Seq<char>>
    decreases staff.len(),
{
    if staff.len() == 0 {
        Seq::empty()
    } else {
        let p = director_names(staff.drop_last());
        let e = staff.last();
        if e.role is Some && is_director_spec(e.role->0@) && e.name is Some {
            p.push(e.name->0@)
        } else {
            p
        }
    }
}

/// The character names that are given, in order.
pub open spec fn character_names(cs: Seq<Option<String>>) -> Seq<Seq<char>>
    decreases cs.len(),
{
    if cs.len() == 0 {
        Seq::empty()
    } else {
        let p = character_names(cs.drop_last());
        match cs.last() {
            Some(n) => p.push(n@),
            None => p,
        }
    }
}

fn director_list(staff: &Vec<StaffCredit>) -> (r: Vec<String>)
    ensures
        views(r@) == director_names(staff@),
{
    let mut out: Vec<String> = Vec::new();
    let mut i: usize = 0;
    while i < staff.len()
        invariant
            i <= staff@.len(),
            views(out@) == director_names(staff@.take(i as int)),
        decreases staff@.len() - i,
    {
        assert(staff@.take(i as int + 1).drop_last() =~= staff@.take(i as int));
        assert(staff@.take(i as int + 1).last() == staff@[i as int]);
        match (&staff[i].role, &staff[i].name) {
            (Some(role), Some(name)) => {
                if is_director_role(role.as_str()) {
                    let ghost o0 = views(out@);
                    out.push(name.clone());
                    assert(views(out@) =~= o0.push(name@));
                }
            },
            _ => {},
        }
        i = i + 1;
    }
    assert(staff@.take(staff@.len() as int) =~= staff@);
    out
}

fn character_list(cs: &Vec<Option<String>>) -> (r: Vec<String>)
    ensures
        views(r@) == character_names(cs@),
{
    let mut out: Vec<String> = Vec::new();
    let mut i: usize = 0;
    while i < cs.len()
        invariant
            i <= cs@.len(),
            views(out@) == character_names(cs@.take(i as int)),
        decreases cs@.len() - i,
    {
        assert(cs@.take(i as int + 1).drop_last() =~= cs@.take(i as int));
        assert(cs@.take(i as int + 1).last() == cs@[i as int]);
        match &cs[i] {
            Some(name) => {
                let ghost o0 = views(out@);
                out.push(name.clone());
                assert(views(out@) =~= o0.push(name@));
            },
            None => {},
        }
        i = i + 1;
    }
    assert(cs@.take(cs@.len() as int) =~= cs@);
    out
}

pub open spec fn opt_text(s: Option<String>) -> Option<Seq<char>> {
    match s {
        Some(v) => Some(v@),
        None => None,
    }
}

/// The country of origin: its name where known, else its code.
pub open spec fn country_spec(code: Option<String>) -> Option<Seq<char>> {
    match code {
        Some(c) => match table_lookup(country_pairs(), c@) {
            Some(n) => Some(n),
            None => Some(c@),
        },
        None => None,
    }
}

/// The release date in full, when the start date is complete.
pub open spec fn release_spec(d: Option<FuzzyDate>) -> Option<Seq<char>> {
    match d {
        Some(x) => fuzzy_date_text(x),
        None => None,
    }
}

/// The larger cover image, else the large one.
pub open spec fn poster_spec(c: Option<CoverImage>) -> Option<Seq<char>> {
    match c {
        Some(ci) => match ci.extra_large {
            Some(x) => Some(x@),
            None => opt_text(ci.large),
        },
        None => None,
    }
}

/// The cleaned synopsis, unless it is blank.
pub open spec fn synopsis_spec(d: Option<String>) -> Option<Seq<char>> {
    match d {
        Some(x) => if crate::text::trim(clean_synopsis_spec(x@)).len() > 0 {
            Some(clean_synopsis_spec(x@))
        } else {
            None
        },
        None => None,
    }
}

/// The anime metadata taken from a catalog entry.
pub open spec fn mapped_ok(m: Media, a: AniListMapped) -> bool {
    let t = match m.title {
        Some(t) => t,
        None => MediaTitle { english: None, romaji: None },
    };
    let release = release_spec(m.start_date);
    &&& a.id == m.id && a.id_mal == m.id_mal
    &&& a.name@ == titles_spec(t).0 && a.eng_name is None && opt_text(a.original_title) == titles_spec(t).2
    &&& opt_text(a.synopsis) == synopsis_spec(m.description)
    &&& views(a.genres@) == match m.genres {
        Some(g) => views(g@),
        None => Seq::empty(),
    }
    &&& views(a.director@) == dedupe(director_names(m.staff@))
    &&& views(a.cast@) == dedupe(character_names(m.characters@))
    &&& a.is_adult == match m.is_adult {
        Some(b) => b,
        None => false,
    }
    &&& a.content_rating@ == if a.is_adult {
        seq!['A', 'd', 'u', 'l', 't']
    } else {
        seq!['A', 'l', 'l', ' ', 'A', 'u', 'd', 'i', 'e', 'n', 'c', 'e', 's']
    }
    &&& opt_text(a.country_of_origin) == country_spec(m.country_of_origin)
    &&& opt_text(a.language) == match m.country_of_origin {
        Some(c) => table_lookup(language_pairs(), c@),
        None => None,
    }
    &&& opt_text(a.release_date) == release
    &&& opt_text(a.year) == match release {
        Some(r) => Some(r.take(find_char(r, '-'))),
        None => None,
    }
    &&& a.runtime_minutes == match m.duration {
        Some(d) => Some(d as i64),
        None => None,
    }
    &&& a.episodes == match m.episodes {
        Some(e) => Some(e as i64),
        None => None,
    }
    &&& opt_text(a.trailer) == match m.trailer {
        Some(tr) => trailer_url_spec(tr),
        None => None,
    }
    &&& opt_text(a.poster) == poster_spec(m.cover_image)
    &&& a.backdrop == m.banner_image
    &&& a.imdb_page == m.site_url
}

fn opt_clone(s: &Option<String>) -> (r: Option<String>)
    ensures
        r == *s,
{
    match s {
        Some(v) => Some(v.clone()),
        None => None,
    }
}

/// Builds the anime metadata of a catalog entry.
pub fn map_media(m: &Media) -> (r: AniListMapped)
    ensures
        mapped_ok(*m, r),
{
    let title = match &m.title {
        Some(t) => MediaTitle { english: opt_clone(&t.english), romaji: opt_clone(&t.romaji) },
        None => MediaTitle { english: None, romaji: None },
    };
    let (name, eng_name, original_title) = choose_titles(&title);
    let director = dedupe_preserve_order(director_list(&m.staff));
    let cast = dedupe_preserve_order(character_list(&m.characters));
    let (country_of_origin, language) = match &m.country_of_origin {
        Some(c) => {
            let n = match country_name_from_code(c.as_str()) {
                Some(n) => n,
                None => c.clone(),
            };
            (Some(n), language_from_country(c.as_str()))
        },
        None => (None, None),
    };
    let is_adult = match m.is_adult {
        Some(b) => b,
        None => false,
    };
    let content_rating = content_rating_from_is_adult(is_adult);
    let release_date = match &m.start_date {
        Some(d) => fuzzy_date_to_string(d),
        None => None,
    };
    let year = match &release_date {
        Some(r) => crate::tmdb::extract_year(r.as_str()),
        None => None,
    };
    let trailer = match &m.trailer {
        Some(t) => trailer_url(t),
        None => None,
    };
    let poster = match &m.cover_image {
        Some(c) => match &c.extra_large {
            Some(x) => Some(x.clone()),
            None => opt_clone(&c.large),
        },
        None => None,
    };
    let synopsis = match &m.description {
        Some(d) => {
            let c = clean_anilist_synopsis(d.as_str());
            let t = crate::text::trim_chars(chars_of(c.as_str()).as_slice());
            if t.len() > 0 {
                Some(c)
            } else {
                None
            }
        },
        None => None,
    };
    let genres = match &m.genres {
        Some(g) => copy_list(g),
        None => {
            let v: Vec<String> = Vec::new();
            assert(views(v@) =~= Seq::<Seq<char>>::empty());
            v
        },
    };
    AniListMapped {
        id: m.id,
        id_mal: m.id_mal,
        name,
        eng_name,
        original_title,
        synopsis,
        genres,
        cast,
        director,
        is_adult,
        content_rating,
        country_of_origin,
        language,
        release_date,
        year,
        runtime_minutes: match m.duration {
            Some(d) => Some(d as i64),
            None => None,
        },
        episodes: match m.episodes {
            Some(e) => Some(e as i64),
            None => None,
        },
        trailer,
        poster,
        backdrop: opt_clone(&m.banner_image),
        imdb_page: opt_clone(&m.site_url),
    }
}

} // verus!
