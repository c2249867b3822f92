use cinelink::gateway::{Decision, Gateway, WebhookEvent};
use cinelink::encode::{set_title, set_value, PropertyWrite, Update, ValueInput};
use cinelink::media::{tmdb_page_write, MediaData};
use cinelink::relations::{pick_best_sequel_id, pick_relation_id, FuzzyDate, RelationEdge, RelationNode, RelationsPayload};
use cinelink::router::{error_title, imdb_override, route_title, trigger_kind, PageAction, PageJob, Stage, TriggerKind};
use cinelink::schema::{fallback_schema, merge_schema_from_props, PropertySchema, PropertyType};
use cinelink::season::{SeasonWalk, WalkStep};

fn write_of<'a>(u: &'a Update, name: &str) -> Option<&'a PropertyWrite> {
    u.entries.iter().rev().find(|(n, _)| n == name).map(|(_, w)| w)
}

fn media(id: i32, name: &str) -> MediaData {
    MediaData {
        id,
        name: name.to_string(),
        eng_name: None,
        original_title: None,
        synopsis: Some("Plot.".to_string()),
        genres: vec!["Drama".to_string()],
        cast: vec![],
        director: vec![],
        content_rating: None,
        country_of_origin: vec![],
        language: Some("English".to_string()),
        release_date: Some("2020-01-02".to_string()),
        year: Some("2020".to_string()),
        runtime_minutes: Some(101),
        episodes: None,
        trailer: None,
        poster: Some("https://image.example/poster.jpg".to_string()),
        backdrop: None,
        imdb_page: Some("https://www.imdb.com/title/tt1".to_string()),
    }
}

#[test]
fn untriggered_titles_are_not_processed() {
    for t in ["Movie Title", "", "Movie Title;x", "Title=?"] {
        let (job, action) = PageJob::start(t, Some("Movie"), None, true);
        assert!(matches!(action, PageAction::Skip));
        assert_eq!(job.stage, Stage::Finished);
    }
    assert_eq!(trigger_kind("Show ;"), TriggerKind::Tmdb);
    assert_eq!(trigger_kind("Show ="), TriggerKind::AniList);
    assert_eq!(trigger_kind("Show"), TriggerKind::NoTrigger);
}

#[test]
fn semicolon_query_is_cleaned() {
    assert_eq!(route_title("  Movie Title ;", true), Some((TriggerKind::Tmdb, "Movie Title".to_string())));
    assert_eq!(route_title("Movie Title ;;", true), Some((TriggerKind::Tmdb, "Movie Title ;".to_string())));
    assert_eq!(route_title("A;;", true), Some((TriggerKind::Tmdb, "A;".to_string())));
    assert_eq!(route_title("Ani Query=", true), Some((TriggerKind::AniList, "Ani Query".to_string())));
    assert_eq!(route_title(" Backfill ", false), Some((TriggerKind::Tmdb, "Backfill".to_string())));
    assert_eq!(route_title("Pending ;", false), None);
    assert_eq!(route_title("   ", false), None);
}

#[test]
fn movie_flow_resolves_fetches_and_writes() {
    let (mut job, action) = PageJob::start("Movie Title ;", Some("Movie"), None, true);
    match action {
        PageAction::ResolveMovie(q) => assert_eq!(q, "Movie Title"),
        other => panic!("unexpected {:?}", other),
    }
    assert!(matches!(job.on_id(Some(42)), PageAction::FetchMovie(42)));
    assert!(matches!(job.on_media(true), PageAction::WriteUpdate));
    assert_eq!(job.stage, Stage::Finished);
}

#[test]
fn failed_search_flags_the_title() {
    let (mut job, _) = PageJob::start("Movie Title ;", Some("Movie"), None, true);
    match job.on_id(None) {
        PageAction::MarkError(t) => assert_eq!(t, "Movie Title ; | No TMDB movie match"),
        other => panic!("unexpected {:?}", other),
    }
    let (mut job, _) = PageJob::start("Show ;", Some("TV Series"), Some("Season 1"), true);
    assert!(matches!(job.on_id(Some(5)), PageAction::FetchTvSeason(5, 1)));
    match job.on_media(false) {
        PageAction::MarkError(t) => assert_eq!(t, "Show ; | No TMDB TV match"),
        other => panic!("unexpected {:?}", other),
    }
    assert_eq!(error_title("X", "No AniList match"), "X | No AniList match");
}

#[test]
fn tv_without_season_is_skipped() {
    let (job, action) = PageJob::start("Show Title ;", Some("TV"), None, true);
    assert!(matches!(action, PageAction::Skip));
    assert_eq!(job.stage, Stage::Finished);
    let (_, action) = PageJob::start("Show Title ;", Some("tv"), Some("Season x"), true);
    assert!(matches!(action, PageAction::Skip));
}

#[test]
fn imdb_id_overrides_record_type() {
    let (mut job, action) = PageJob::start("tt99999 ;", Some("Movie"), Some("Season 1"), true);
    match action {
        PageAction::LookupImdb(id) => assert_eq!(id, "tt99999"),
        other => panic!("unexpected {:?}", other),
    }
    assert!(matches!(job.on_imdb(Some((None, Some(77)))), PageAction::FetchTvSeason(77, 1)));
    assert!(job.is_tv);

    let (mut job, _) = PageJob::start("TT12345 ;", Some("TV"), Some("Season 2"), true);
    assert!(matches!(job.on_imdb(Some((Some(9), None))), PageAction::FetchMovie(9)));
    assert!(!job.is_tv);

    let (mut job, _) = PageJob::start("tt12345 ;", Some("Movie"), None, true);
    assert!(matches!(job.on_imdb(None), PageAction::Fail));
    assert_eq!(imdb_override(false, None, Some(3)), (Some(3), true));
    assert_eq!(imdb_override(true, Some(4), None), (Some(4), false));
    assert_eq!(imdb_override(true, None, None), (None, true));
}

#[test]
fn anime_trigger_carries_season() {
    let (mut job, action) = PageJob::start("Ani Query=", None, Some("Season 2"), true);
    match action {
        PageAction::ResolveAnime(q, s) => {
            assert_eq!(q, "Ani Query");
            assert_eq!(s, Some(2));
        }
        other => panic!("unexpected {:?}", other),
    }
    assert!(matches!(job.on_id(Some(176496)), PageAction::FetchAnime(176496)));
    assert!(matches!(job.on_media(true), PageAction::WriteUpdate));
}

#[test]
fn resolved_record_is_not_processed_again() {
    let w = tmdb_page_write(&media(42, "Movie Title Resolved"), &fallback_schema(), "Name");
    let title = match write_of(&w.properties, "Name") {
        Some(PropertyWrite::Title(t)) => t.clone(),
        other => panic!("unexpected {:?}", other),
    };
    let (_, action) = PageJob::start(&title, Some("Movie"), None, true);
    assert!(matches!(action, PageAction::Skip));
}

#[test]
fn movie_update_sets_title_id_and_icon() {
    let schema = fallback_schema();
    let w = tmdb_page_write(&media(42, "Resolved Name"), &schema, "Name");
    assert!(matches!(write_of(&w.properties, "Name"), Some(PropertyWrite::Title(t)) if t == "Resolved Name"));
    assert!(matches!(write_of(&w.properties, "ID"), Some(PropertyWrite::Number(42))));
    assert!(matches!(write_of(&w.properties, "Runtime"), Some(PropertyWrite::Number(101))));
    assert!(matches!(write_of(&w.properties, "Genre"), Some(PropertyWrite::MultiSelect(g)) if g == &vec!["Drama".to_string()]));
    assert!(matches!(write_of(&w.properties, "Release Date"), Some(PropertyWrite::Date(d)) if d == "2020-01-02"));
    assert!(matches!(write_of(&w.properties, "IMDb Page"), Some(PropertyWrite::Url(_))));
    assert!(write_of(&w.properties, "Episodes").is_none());
    assert_eq!(w.icon.as_deref(), Some("https://image.example/poster.jpg"));
    assert_eq!(w.cover, None);
}

#[test]
fn encoder_follows_declared_types() {
    let schema = fallback_schema();
    let mut u = Update::new();
    set_value(&mut u, "ID", Some(ValueInput::Text("x".to_string())), &schema);
    assert!(write_of(&u, "ID").is_none());
    set_value(&mut u, "Genre", Some(ValueInput::Text("Drama".to_string())), &schema);
    assert!(matches!(write_of(&u, "Genre"), Some(PropertyWrite::MultiSelect(g)) if g == &vec!["Drama".to_string()]));
    set_value(&mut u, "Unlisted", Some(ValueInput::Number(-7)), &schema);
    assert!(matches!(write_of(&u, "Unlisted"), Some(PropertyWrite::RichText(t)) if t == "-7"));
    set_value(&mut u, "Cast", Some(ValueInput::StringList(vec!["A".to_string(), "B".to_string()])), &schema);
    assert!(matches!(write_of(&u, "Cast"), Some(PropertyWrite::RichText(t)) if t == "A, B"));
    set_value(&mut u, "Trailer", Some(ValueInput::StringList(vec![])), &schema);
    assert!(write_of(&u, "Trailer").is_none());
    set_value(&mut u, "IMG", Some(ValueInput::Url("u".to_string())), &schema);
    assert!(matches!(write_of(&u, "IMG"), Some(PropertyWrite::Files(f)) if f == "u"));
    set_value(&mut u, "Synopsis", None, &schema);
    assert!(write_of(&u, "Synopsis").is_none());
    set_value(&mut u, "ID", Some(ValueInput::Number(1)), &schema);
    set_value(&mut u, "ID", Some(ValueInput::Number(2)), &schema);
    assert!(matches!(write_of(&u, "ID"), Some(PropertyWrite::Number(2))));
    assert_eq!(u.entries.iter().filter(|(n, _)| n == "ID").count(), 1);
    set_title(&mut u, "Synopsis", "T", &schema);
    assert!(matches!(write_of(&u, "Synopsis"), Some(PropertyWrite::RichText(t)) if t == "T"));
    set_title(&mut u, "Other", "T", &schema);
    assert!(matches!(write_of(&u, "Other"), Some(PropertyWrite::RichText(t)) if t == "T"));
    set_title(&mut u, "Name", "T", &schema);
    assert!(matches!(write_of(&u, "Name"), Some(PropertyWrite::Title(t)) if t == "T"));
}

#[test]
fn schema_keeps_first_classification() {
    let mut schema = PropertySchema { types: vec![], title_property: None };
    merge_schema_from_props(&mut schema, &vec![
        ("Name".to_string(), Some("title".to_string())),
        ("Year".to_string(), Some("rich_text".to_string())),
        ("Odd".to_string(), Some("formula".to_string())),
        ("Skip".to_string(), None),
    ]);
    merge_schema_from_props(&mut schema, &vec![
        ("Name".to_string(), Some("number".to_string())),
        ("Other".to_string(), Some("title".to_string())),
    ]);
    assert_eq!(schema.title_property.as_deref(), Some("Name"));
    assert!(matches!(schema.types[schema.position("Name").unwrap()].1, PropertyType::Title));
    assert!(matches!(&schema.types[schema.position("Odd").unwrap()].1, PropertyType::Unknown(t) if t == "formula"));
    assert!(schema.position("Skip").is_none());
    assert_eq!(fallback_schema().types.len(), 19);
}

fn date(y: i32) -> Option<FuzzyDate> {
    Some(FuzzyDate { year: Some(y), month: Some(1), day: Some(1) })
}

fn sequels(start: Option<FuzzyDate>) -> RelationsPayload {
    RelationsPayload {
        start_date: start,
        edges: vec![
            RelationEdge { relation_type: Some("SEQUEL".to_string()), node: Some(RelationNode { id: 2, start_date: date(2019) }) },
            RelationEdge { relation_type: Some("SEQUEL".to_string()), node: Some(RelationNode { id: 3, start_date: date(2021) }) },
        ],
    }
}

#[test]
fn season_two_follows_the_later_sequel() {
    let a = sequels(date(2020));
    let (mut walk, step) = SeasonWalk::new(1, Some(2));
    assert_eq!(step, WalkStep::Fetch(1));
    assert_eq!(walk.on_relations(Some(&a)), WalkStep::Fetch(1));
    assert_eq!(walk.on_relations(Some(&a)), WalkStep::Found(3));
}

#[test]
fn sequel_falls_back_to_earliest() {
    assert_eq!(pick_best_sequel_id(&sequels(date(2022))), Some(2));
    assert_eq!(pick_best_sequel_id(&sequels(None)), Some(2));
    assert_eq!(pick_best_sequel_id(&RelationsPayload { start_date: None, edges: vec![] }), None);
}

#[test]
fn walk_back_to_first_season_stops_on_cycles() {
    let prequel = |id: i32| RelationsPayload {
        start_date: None,
        edges: vec![RelationEdge { relation_type: Some("PREQUEL".to_string()), node: Some(RelationNode { id, start_date: None }) }],
    };
    let (mut walk, _) = SeasonWalk::new(3, None);
    assert_eq!(walk.on_relations(Some(&prequel(2))), WalkStep::Fetch(2));
    assert_eq!(walk.on_relations(Some(&prequel(3))), WalkStep::Found(3));
    let (mut walk, _) = SeasonWalk::new(3, Some(0));
    assert_eq!(walk.on_relations(Some(&RelationsPayload { start_date: None, edges: vec![] })), WalkStep::Found(3));
    let (mut walk, _) = SeasonWalk::new(3, Some(2));
    assert_eq!(walk.on_relations(None), WalkStep::Failed);
    assert_eq!(pick_relation_id(&prequel(8), "PREQUEL"), Some(8));
    assert_eq!(pick_relation_id(&prequel(8), "SEQUEL"), None);
}

#[test]
fn missing_sequel_fails_the_walk() {
    let none = RelationsPayload { start_date: None, edges: vec![] };
    let (mut walk, _) = SeasonWalk::new(1, Some(3));
    assert_eq!(walk.on_relations(Some(&none)), WalkStep::Fetch(1));
    assert_eq!(walk.on_relations(Some(&none)), WalkStep::Failed);
}

#[test]
fn webhook_for_movie_title_ends_in_update() {
    let now = 1_700_000_000;
    let mut g = Gateway::new("k".to_string());
    let ev = WebhookEvent {
        id: Some("evt".to_string()),
        timestamp: Some("2023-11-14T22:13:20Z".to_string()),
        event_type: Some("page.properties_updated".to_string()),
        entity_id: Some("page-1".to_string()),
        updated_properties: vec!["title".to_string()],
    };
    let page_id = match g.admit_event(Some(&ev), now) {
        Decision::Dispatch { page_id, .. } => page_id,
        other => panic!("unexpected {:?}", other),
    };
    assert_eq!(page_id, "page-1");
    let (mut job, action) = PageJob::start("Movie Title ;", Some("Movie"), None, true);
    assert!(matches!(action, PageAction::ResolveMovie(ref q) if q == "Movie Title"));
    assert!(matches!(job.on_id(Some(603)), PageAction::FetchMovie(603)));
    assert!(matches!(job.on_media(true), PageAction::WriteUpdate));
    let w = tmdb_page_write(&media(603, "The Matrix"), &fallback_schema(), "Name");
    assert!(matches!(write_of(&w.properties, "Name"), Some(PropertyWrite::Title(t)) if t == "The Matrix"));
    assert!(matches!(write_of(&w.properties, "ID"), Some(PropertyWrite::Number(603))));
    assert_eq!(w.icon.as_deref(), Some("https://image.example/poster.jpg"));
}
