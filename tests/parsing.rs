use cinelink::anime::{country_name_from_code, language_from_country, trailer_url, with_anime_tags, Trailer};
use cinelink::cache::TtlCache;
use cinelink::ids::{parse_imdb_id, parse_season_number, parse_tmdb_id};
use cinelink::retry::{decide, jitter_ms, retry_delay_ms, Outcome, RetryDecision};
use cinelink::synopsis::{decode_basic_html_entities, normalize_newlines, remove_source_blocks, strip_html_with_breaks};
use cinelink::titles::{candidate_score, normalize_title_key, pick_best_scored, pick_search_hit, score_title, SearchCandidate};
use cinelink::tmdb::{extract_year, language_name, select_trailer, Video, Videos};

#[test]
fn season_numbers_parse() {
    assert_eq!(parse_season_number("Season 3"), Some(3));
    assert_eq!(parse_season_number("Mini-Series"), Some(1));
    assert_eq!(parse_season_number(" 4 "), Some(4));
    assert_eq!(parse_season_number("Season x"), None);
    assert_eq!(parse_season_number("-2"), Some(-2));
    assert_eq!(parse_season_number("99999999999"), None);
}

#[test]
fn catalog_and_imdb_ids_parse() {
    assert_eq!(parse_tmdb_id("603"), Some(603));
    assert_eq!(parse_tmdb_id(""), None);
    assert_eq!(parse_tmdb_id("60a"), None);
    assert_eq!(parse_tmdb_id("2147483648"), None);
    assert_eq!(parse_imdb_id(" TT0133093 ").as_deref(), Some("tt0133093"));
    assert_eq!(parse_imdb_id("tt"), None);
    assert_eq!(parse_imdb_id("tt12a"), None);
}

#[test]
fn retry_policy() {
    assert_eq!(decide(1, Outcome::Status(503)), RetryDecision::Retry);
    assert_eq!(decide(1, Outcome::Status(429)), RetryDecision::Retry);
    assert_eq!(decide(3, Outcome::Status(503)), RetryDecision::Done);
    assert_eq!(decide(1, Outcome::Status(404)), RetryDecision::Done);
    assert_eq!(decide(2, Outcome::Transport { transient: true }), RetryDecision::Retry);
    assert_eq!(decide(3, Outcome::Transport { transient: true }), RetryDecision::Fail);
    assert_eq!(decide(1, Outcome::Transport { transient: false }), RetryDecision::Fail);
    assert_eq!(retry_delay_ms(1, Some("10"), 0), 200);
    assert_eq!(retry_delay_ms(1, Some("10"), 7), 207);
    assert_eq!(retry_delay_ms(6, Some("3"), 7), 3_000);
    assert_eq!(retry_delay_ms(2, Some("0"), 7), 0);
    assert_eq!(retry_delay_ms(100, None, u64::MAX), 5_000);
    assert_eq!(retry_delay_ms(1, Some("soon"), 7), 207);
    assert_eq!(retry_delay_ms(2, None, 0), 400);
    assert_eq!(retry_delay_ms(6, None, 50), 5_000);
    assert_eq!(jitter_ms(1234), 34);
}

#[test]
fn cache_expires_and_clears() {
    let mut c: TtlCache<String> = TtlCache::new(60, 2);
    c.put(1, "a".to_string(), 100);
    assert_eq!(c.get(1, 159).map(|s| s.as_str()), Some("a"));
    assert_eq!(c.get(1, 160), None);
    c.put(1, "a".to_string(), 200);
    c.put(1, "b".to_string(), 200);
    assert_eq!(c.entries.len(), 1);
    c.put(2, "c".to_string(), 200);
    c.put(3, "d".to_string(), 200);
    c.put(4, "e".to_string(), 200);
    assert_eq!(c.entries.len(), 1);
    assert_eq!(c.get(4, 200).map(|s| s.as_str()), Some("e"));
}

#[test]
fn synopsis_pieces() {
    assert_eq!(strip_html_with_breaks("a<br/>b< / BR >c<i>d</i><x"), "a\nb\ncd");
    assert_eq!(decode_basic_html_entities("&amp; &#65; &#x42; &bogus; &"), "& A B &bogus; &");
    assert_eq!(decode_basic_html_entities("&#xD800;"), "&#xD800;");
    assert_eq!(remove_source_blocks("Plot (SOURCE: X) end (source: open"), "Plot  end ");
    assert_eq!(normalize_newlines(" a\r\n\r\n\r\n\nb "), "a\n\nb");
}

#[test]
fn title_keys_and_scores() {
    assert_eq!(normalize_title_key("  Attack on Titan: Final!! "), "attack on titan final");
    let q = normalize_title_key("One Punch Man");
    assert_eq!(score_title(&q, Some("One-Punch Man"), None), 100);
    assert_eq!(score_title(&q, None, Some("One Punch Man 2")), 70);
    assert_eq!(score_title(&q, Some("Other"), Some("Else")), 0);
    let c = SearchCandidate { id: 5, english: Some("One Punch Man 2".to_string()), romaji: None };
    assert_eq!(candidate_score(&q, &c, Some("One Punch Man"), None, true), 130);
    assert_eq!(candidate_score(&q, &c, None, None, false), 80);
    assert_eq!(pick_best_scored(&vec![(1, 10), (2, 30), (3, 30)]), Some(2));
    assert_eq!(pick_best_scored(&vec![]), None);
    let hits = vec![
        SearchCandidate { id: 1, english: Some("Something".to_string()), romaji: None },
        SearchCandidate { id: 2, english: None, romaji: Some("One Punch Man".to_string()) },
    ];
    assert_eq!(pick_search_hit("one punch man", &hits), Some(2));
    assert_eq!(pick_search_hit("zzz", &hits), Some(1));
    assert_eq!(pick_search_hit("zzz", &vec![]), None);
}

#[test]
fn anime_normalisation_tables() {
    assert_eq!(language_from_country("JP").as_deref(), Some("Japanese"));
    assert_eq!(language_from_country("TW").as_deref(), Some("Chinese"));
    assert_eq!(language_from_country("XX"), None);
    assert_eq!(country_name_from_code("KR").as_deref(), Some("South Korea"));
    assert_eq!(country_name_from_code("NZ"), None);
    let t = Trailer { id: Some("abc".to_string()), site: Some("YouTube".to_string()) };
    assert_eq!(trailer_url(&t).as_deref(), Some("https://www.youtube.com/watch?v=abc"));
    let d = Trailer { id: Some("x9".to_string()), site: Some("dailymotion".to_string()) };
    assert_eq!(trailer_url(&d).as_deref(), Some("https://www.dailymotion.com/video/x9"));
    let v = Trailer { id: Some("1".to_string()), site: Some("vimeo".to_string()) };
    assert_eq!(trailer_url(&v), None);
    assert_eq!(
        with_anime_tags(vec!["ANIME".to_string(), "Action".to_string(), "animation".to_string()]),
        vec!["Anime".to_string(), "Animation".to_string(), "Action".to_string()]
    );
}

#[test]
fn tmdb_helpers() {
    assert_eq!(extract_year("2020-05-01").as_deref(), Some("2020"));
    assert_eq!(extract_year("1999").as_deref(), Some("1999"));
    assert_eq!(language_name("fr").as_deref(), Some("French"));
    assert_eq!(language_name("xx").as_deref(), Some("xx"));
    let vids = Videos {
        results: vec![
            Video { site: "YouTube".to_string(), video_type: "Teaser".to_string(), key: "t1".to_string() },
            Video { site: "youtube".to_string(), video_type: "Trailer".to_string(), key: "k2".to_string() },
        ],
    };
    assert_eq!(select_trailer(&vids).as_deref(), Some("https://www.youtube.com/watch?v=k2"));
    let teaser_only = Videos { results: vec![vids.results[0].clone()] };
    assert_eq!(select_trailer(&teaser_only).as_deref(), Some("https://www.youtube.com/watch?v=t1"));
    assert_eq!(select_trailer(&Videos { results: vec![] }), None);
}
