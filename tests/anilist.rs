use cinelink::anime::{
    choose_titles, content_rating_from_is_adult, dedupe_preserve_order, fuzzy_date_to_string,
    is_director_role, strip_trailing_season_suffix, MediaTitle,
};
use cinelink::ids::parse_anilist_id;
use cinelink::relations::{pick_best_sequel_id, FuzzyDate, RelationEdge, RelationNode, RelationsPayload};
use cinelink::synopsis::clean_anilist_synopsis;

#[test]
fn anilist_formats_full_fuzzy_date_only_when_complete() {
    let d = FuzzyDate {
        year: Some(2024),
        month: Some(1),
        day: Some(2),
    };
    assert_eq!(fuzzy_date_to_string(&d).as_deref(), Some("2024-01-02"));
    let d2 = FuzzyDate {
        year: Some(2024),
        month: Some(1),
        day: None,
    };
    assert_eq!(fuzzy_date_to_string(&d2), None);
}

#[test]
fn map_formats_full_fuzzy_date_only_when_complete() {
    let d = FuzzyDate {
        year: Some(2024),
        month: Some(1),
        day: Some(2),
    };
    assert_eq!(fuzzy_date_to_string(&d).as_deref(), Some("2024-01-02"));
    let d2 = FuzzyDate {
        year: Some(2024),
        month: Some(1),
        day: None,
    };
    assert_eq!(fuzzy_date_to_string(&d2), None);
}

#[test]
fn anilist_title_selection_prefers_english_and_uses_romaji_as_original() {
    let t = MediaTitle {
        english: Some("English Season 2".to_string()),
        romaji: Some("Romaji Season 2".to_string()),
    };
    let (name, eng, original) = choose_titles(&t);
    assert_eq!(name, "English");
    assert_eq!(eng, None);
    assert_eq!(original.as_deref(), Some("Romaji"));
}

#[test]
fn map_title_selection_prefers_english_and_uses_romaji_as_original() {
    let t = MediaTitle {
        english: Some("English Season 2".to_string()),
        romaji: Some("Romaji Season 2".to_string()),
    };
    let (name, eng, original) = choose_titles(&t);
    assert_eq!(name, "English");
    assert_eq!(eng, None);
    assert_eq!(original.as_deref(), Some("Romaji"));
}

#[test]
fn anilist_strips_trailing_season_suffix_only_at_end() {
    assert_eq!(
        strip_trailing_season_suffix("One-Punch Man Season 2"),
        "One-Punch Man"
    );
    assert_eq!(
        strip_trailing_season_suffix("One-Punch Man: Season 2"),
        "One-Punch Man"
    );
    assert_eq!(
        strip_trailing_season_suffix("One-Punch Man - Season 2"),
        "One-Punch Man"
    );
    assert_eq!(
        strip_trailing_season_suffix("Solo Leveling Season 2 - Arise"),
        "Solo Leveling Season 2 - Arise"
    );
    assert_eq!(strip_trailing_season_suffix("Season 2"), "Season 2");
}

#[test]
fn map_strips_trailing_season_suffix_only_at_end() {
    assert_eq!(
        strip_trailing_season_suffix("One-Punch Man Season 2"),
        "One-Punch Man"
    );
    assert_eq!(
        strip_trailing_season_suffix("One-Punch Man: Season 2"),
        "One-Punch Man"
    );
    assert_eq!(
        strip_trailing_season_suffix("One-Punch Man - Season 2"),
        "One-Punch Man"
    );
    assert_eq!(
        strip_trailing_season_suffix("Solo Leveling Season 2 - Arise"),
        "Solo Leveling Season 2 - Arise"
    );
    assert_eq!(strip_trailing_season_suffix("Season 2"), "Season 2");
}

#[test]
fn anilist_director_role_matching_is_reasonable() {
    assert!(is_director_role("Director"));
    assert!(is_director_role("Series Director"));
    assert!(is_director_role("Chief Director"));
    assert!(!is_director_role("Assistant Director"));
}

#[test]
fn map_director_role_matching_is_reasonable() {
    assert!(is_director_role("Director"));
    assert!(is_director_role("Series Director"));
    assert!(is_director_role("Chief Director"));
    assert!(!is_director_role("Assistant Director"));
}

#[test]
fn anilist_content_rating_derived_from_is_adult() {
    assert_eq!(content_rating_from_is_adult(false), "All Audiences");
    assert_eq!(content_rating_from_is_adult(true), "Adult");
}

#[test]
fn map_content_rating_derived_from_is_adult() {
    assert_eq!(content_rating_from_is_adult(false), "All Audiences");
    assert_eq!(content_rating_from_is_adult(true), "Adult");
}

#[test]
fn anilist_parses_anilist_id_only_for_digits() {
    assert_eq!(parse_anilist_id("176496"), Some(176496));
    assert_eq!(parse_anilist_id(" 176496 "), Some(176496));
    assert_eq!(parse_anilist_id("tt123"), None);
    assert_eq!(parse_anilist_id("abc"), None);
    assert_eq!(parse_anilist_id(""), None);
}

#[test]
fn resolve_parses_anilist_id_only_for_digits() {
    assert_eq!(parse_anilist_id("176496"), Some(176496));
    assert_eq!(parse_anilist_id(" 176496 "), Some(176496));
    assert_eq!(parse_anilist_id("tt123"), None);
    assert_eq!(parse_anilist_id("abc"), None);
    assert_eq!(parse_anilist_id(""), None);
}

#[test]
fn anilist_dedupes_preserving_first_occurrence() {
    let input = vec![
        "A".to_string(),
        "B".to_string(),
        "A".to_string(),
        "B".to_string(),
    ];
    assert_eq!(
        dedupe_preserve_order(input),
        vec!["A".to_string(), "B".to_string()]
    );
}

#[test]
fn map_dedupes_preserving_first_occurrence() {
    let input = vec![
        "A".to_string(),
        "B".to_string(),
        "A".to_string(),
        "B".to_string(),
    ];
    assert_eq!(
        dedupe_preserve_order(input),
        vec!["A".to_string(), "B".to_string()]
    );
}

#[test]
fn anilist_cleans_anilist_synopsis_html_and_source() {
    let raw = "The third season of <i>One Punch Man</i>.<br><br>\n(Source: EMOTION Label YouTube Channel Description)<br><br>\n<i>Note: Excludes recap.</i>";
    let cleaned = clean_anilist_synopsis(raw);
    assert!(!cleaned.contains("<i>"));
    assert!(!cleaned.contains("<br"));
    assert!(!cleaned.to_ascii_lowercase().contains("source:"));
    assert!(cleaned.contains("The third season of One Punch Man."));
    assert!(cleaned.contains("Note: Excludes recap."));
}

#[test]
fn text_cleans_anilist_synopsis_html_and_source() {
    let raw = "The third season of <i>One Punch Man</i>.<br><br>\n(Source: EMOTION Label YouTube Channel Description)<br><br>\n<i>Note: Excludes recap.</i>";
    let cleaned = clean_anilist_synopsis(raw);
    assert!(!cleaned.contains("<i>"));
    assert!(!cleaned.contains("<br"));
    assert!(!cleaned.to_ascii_lowercase().contains("source:"));
    assert!(cleaned.contains("The third season of One Punch Man."));
    assert!(cleaned.contains("Note: Excludes recap."));
}

#[test]
fn dedupes_cast_like_director() {
    let input = vec![
        "Actor".to_string(),
        "Actor".to_string(),
        "Other".to_string(),
        "Actor".to_string(),
    ];
    assert_eq!(
        dedupe_preserve_order(input),
        vec!["Actor".to_string(), "Other".to_string()]
    );
}

#[test]
fn picks_best_sequel_by_start_date() {
    let relations = RelationsPayload {
        start_date: Some(FuzzyDate {
            year: Some(2020),
            month: Some(1),
            day: Some(1),
        }),
        edges: vec![
            RelationEdge {
                relation_type: Some("SEQUEL".to_string()),
                node: Some(RelationNode {
                    id: 2,
                    start_date: Some(FuzzyDate {
                        year: Some(2019),
                        month: Some(1),
                        day: Some(1),
                    }),
                }),
            },
            RelationEdge {
                relation_type: Some("SEQUEL".to_string()),
                node: Some(RelationNode {
                    id: 3,
                    start_date: Some(FuzzyDate {
                        year: Some(2021),
                        month: Some(1),
                        day: Some(1),
                    }),
                }),
            },
        ],
    };
    assert_eq!(pick_best_sequel_id(&relations), Some(3));
}
