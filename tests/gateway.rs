use cinelink::dedup::{DedupCache, DEDUPE_TTL_SECS, MAX_DEDUPE_ENTRIES};
use cinelink::gateway::{
    content_type_ok, extract_ip, is_fresh_timestamp, should_process, within_skew, Decision, Gateway, Status,
    WebhookEvent,
};
use cinelink::rate::{RateTable, WindowCounter, PER_IP_BURST, PER_IP_LIMIT};
use cinelink::signature::verify_signature;
use hmac::Mac;

fn sign(secret: &str, body: &[u8]) -> String {
    let mut mac = hmac::Hmac::<sha2::Sha256>::new_from_slice(secret.as_bytes()).unwrap();
    mac.update(body);
    hex::encode(mac.finalize().into_bytes())
}

fn stamp(secs: i64) -> String {
    chrono::DateTime::<chrono::Utc>::from_timestamp(secs, 0).unwrap().to_rfc3339()
}

const NOW: i64 = 1_700_000_000;

fn event(id: Option<&str>, props: &[&str]) -> WebhookEvent {
    WebhookEvent {
        id: id.map(|s| s.to_string()),
        timestamp: Some(stamp(NOW)),
        event_type: Some("page.properties_updated".to_string()),
        entity_id: Some("page-1".to_string()),
        updated_properties: props.iter().map(|s| s.to_string()).collect(),
    }
}

#[test]
fn per_ip_counter_admits_exactly_limit_plus_burst() {
    let mut table = RateTable::new();
    let ceiling = PER_IP_LIMIT + PER_IP_BURST;
    for _ in 0..ceiling {
        assert!(table.check("1.2.3.4", 100, ceiling));
    }
    assert!(!table.check("1.2.3.4", 100, ceiling));
    assert!(table.check("5.6.7.8", 100, ceiling));
    assert!(table.check("1.2.3.4", 101, ceiling));
}

#[test]
fn window_counter_resets_in_new_bucket() {
    let mut c = WindowCounter::new(7);
    assert!(c.check(7, 2));
    assert!(c.check(7, 2));
    assert!(!c.check(7, 2));
    assert_eq!(c.count, 2);
    assert!(c.check(8, 2));
    assert_eq!(c.window, 8);
    assert_eq!(c.count, 1);
}

#[test]
fn dedup_refuses_replay_within_ttl_and_admits_after() {
    let mut d = DedupCache::new();
    assert!(d.record_event("evt-1", NOW));
    assert!(!d.record_event("evt-1", NOW + 10));
    assert!(!d.record_event("evt-1", NOW + DEDUPE_TTL_SECS));
    assert!(d.record_event("evt-1", NOW + DEDUPE_TTL_SECS + 1));
    assert!(d.record_event("evt-2", NOW + DEDUPE_TTL_SECS + 1));
}

#[test]
fn dedup_clears_when_over_capacity() {
    let mut d = DedupCache::new();
    for i in 0..=MAX_DEDUPE_ENTRIES {
        assert!(d.record_event(&format!("e{}", i), NOW));
    }
    assert_eq!(d.entries.len(), MAX_DEDUPE_ENTRIES + 1);
    assert!(d.record_event("e0", NOW));
    assert_eq!(d.entries.len(), 1);
}

#[test]
fn signature_accepts_matching_hmac_with_or_without_prefix() {
    let body = b"{\"id\":\"x\"}";
    let sig = sign("s3cret", body);
    assert!(verify_signature(Some(&format!("sha256={}", sig)), body, "s3cret"));
    assert!(verify_signature(Some(&sig), body, "s3cret"));
    assert!(verify_signature(Some(&sig.to_uppercase()), body, "s3cret"));
}

#[test]
fn signature_rejects_mutations_and_bad_headers() {
    let body = b"{\"id\":\"x\"}".to_vec();
    let sig = format!("sha256={}", sign("s3cret", &body));
    let mut changed = body.clone();
    changed[3] ^= 1;
    assert!(!verify_signature(Some(&sig), &changed, "s3cret"));
    assert!(!verify_signature(Some(&sig), &body, "other"));
    assert!(!verify_signature(None, &body, "s3cret"));
    assert!(!verify_signature(Some("sha256=zz"), &body, "s3cret"));
    assert!(!verify_signature(Some("sha256=abc"), &body, "s3cret"));
    assert!(!verify_signature(Some("sha256=abcd"), &body, "s3cret"));
}

#[test]
fn freshness_window_is_five_minutes_either_way() {
    assert!(is_fresh_timestamp(Some(&stamp(NOW - 300)), NOW));
    assert!(is_fresh_timestamp(Some(&stamp(NOW + 300)), NOW));
    assert!(!is_fresh_timestamp(Some(&stamp(NOW - 301)), NOW));
    assert!(!is_fresh_timestamp(Some("yesterday"), NOW));
    assert!(!is_fresh_timestamp(None, NOW));
    assert!(is_fresh_timestamp(Some("2023-11-14T22:13:20Z"), NOW));
    assert!(within_skew(NOW, NOW));
    assert!(!within_skew(i64::MIN, i64::MAX));
}

#[test]
fn interest_filter_decodes_and_ignores_case() {
    assert!(should_process(&vec!["title".to_string()]));
    assert!(should_process(&vec!["Name".to_string(), "SEASON".to_string()]));
    assert!(should_process(&vec!["Ti%74le".to_string()]));
    assert!(should_process(&vec!["Siv%5D".to_string()]));
    assert!(!should_process(&vec!["Name".to_string(), "Type".to_string()]));
    assert!(!should_process(&vec![]));
    assert!(!should_process(&vec!["%FF".to_string()]));
}

#[test]
fn client_address_comes_from_first_present_header() {
    assert_eq!(extract_ip(Some(Some("1.1.1.1")), Some(Some("2.2.2.2")), None), "1.1.1.1");
    assert_eq!(extract_ip(None, Some(Some(" 2.2.2.2 ")), None), "2.2.2.2");
    assert_eq!(extract_ip(None, None, Some(Some("3.3.3.3, 4.4.4.4"))), "3.3.3.3");
    assert_eq!(extract_ip(None, None, None), "unknown");
    assert_eq!(extract_ip(Some(None), Some(Some("2.2.2.2")), None), "unknown");
}

#[test]
fn content_type_must_be_json() {
    assert!(content_type_ok(Some("application/json")));
    assert!(content_type_ok(Some("application/json; charset=utf-8")));
    assert!(!content_type_ok(Some("text/plain")));
    assert!(!content_type_ok(None));
}

#[test]
fn request_checks_answer_in_pipeline_order() {
    let mut g = Gateway::new("s3cret".to_string());
    let body = b"{}".to_vec();
    let sig = sign("s3cret", &body);
    assert_eq!(g.screen_request("ip", 1, &body, Some("text/plain"), Some(&sig)), Some(Status::UnsupportedMediaType));
    assert_eq!(g.screen_request("ip", 1, &body, Some("application/json"), Some("00")), Some(Status::Unauthorized));
    let big = vec![b' '; 1024 * 1024 + 1];
    assert_eq!(g.screen_request("ip", 1, &big, Some("application/json"), None), Some(Status::PayloadTooLarge));
    assert_eq!(g.screen_request("ip", 1, &body, Some("application/json"), Some(&sig)), None);
    for _ in 0..66 {
        g.screen_request("ip", 1, &body, Some("application/json"), Some(&sig));
    }
    assert_eq!(g.screen_request("ip", 1, &body, Some("application/json"), Some(&sig)), Some(Status::TooManyRequests));
    assert_eq!(Status::TooManyRequests.code(), 429);
    assert_eq!(Status::Success.code(), 200);
}

#[test]
fn global_limit_applies_across_addresses() {
    let mut g = Gateway::new("k".to_string());
    let body = b"{}".to_vec();
    let sig = sign("k", &body);
    for i in 0..220 {
        assert_eq!(g.screen_request(&format!("10.0.0.{}", i), 5, &body, Some("application/json"), Some(&sig)), None);
    }
    assert_eq!(
        g.screen_request("10.9.9.9", 5, &body, Some("application/json"), Some(&sig)),
        Some(Status::TooManyRequests)
    );
}

#[test]
fn parsed_events_are_filtered_and_dispatched() {
    let mut g = Gateway::new("k".to_string());
    assert!(matches!(g.admit_event(None, NOW), Decision::Reject(Status::BadRequest)));
    let mut wrong = event(Some("a"), &["title"]);
    wrong.event_type = Some("page.created".to_string());
    assert!(matches!(g.admit_event(Some(&wrong), NOW), Decision::Ignore));
    let mut stale = event(Some("b"), &["title"]);
    stale.timestamp = Some(stamp(NOW - 1000));
    assert!(matches!(g.admit_event(Some(&stale), NOW), Decision::Reject(Status::BadRequest)));
    match g.admit_event(Some(&event(Some("c"), &["title"])), NOW) {
        Decision::Dispatch { page_id, event_id } => {
            assert_eq!(page_id, "page-1");
            assert_eq!(event_id.as_deref(), Some("c"));
        }
        other => panic!("unexpected {:?}", other),
    }
    assert!(matches!(g.admit_event(Some(&event(Some("c"), &["title"])), NOW), Decision::Ignore));
    assert!(matches!(g.admit_event(Some(&event(Some("d"), &["Type"])), NOW), Decision::Ignore));
    let mut orphan = event(None, &["title"]);
    orphan.entity_id = None;
    assert!(matches!(g.admit_event(Some(&orphan), NOW), Decision::Reject(Status::BadRequest)));
}
