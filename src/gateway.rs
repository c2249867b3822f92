//! The admission pipeline of the webhook endpoint: rate limits, size and
//! content-type checks, signature, freshness, de-duplication and the filter
//! on changed properties, each stage short-circuiting.
use vstd::prelude::*;
use crate::dedup::{DedupCache, admits_event, after_event};
use crate::rate::{RateTable, WindowCounter, admits, after_check, PER_IP_LIMIT, PER_IP_BURST, GLOBAL_LIMIT, GLOBAL_BURST};
use crate::signature::{verify_signature, signature_valid, opt_view};
use crate::text::{chars_of, chars_eq, string_of, trim_chars, trim};

verus! {

/// Largest accepted body, in bytes.
pub const MAX_BODY_BYTES: usize = 1048576;

/// Largest accepted distance between the event's timestamp and now, in seconds.
pub const MAX_SKEW_SECS: i64 = 300;

/// The seconds since the Unix epoch of an RFC 3339 timestamp, if it is one.
pub uninterp spec fn rfc3339_seconds(s: Seq<char>) -> Option<i64>;

/// Relies on chrono's `FromStr` for `DateTime<Utc>` (RFC 3339) and on
/// `DateTime::timestamp`, whole seconds since the epoch.
#[verifier::external_body]
fn parse_rfc3339(s: &str) -> (r: Option<i64>)
    ensures
        r == rfc3339_seconds(s@),
{
    s.parse::<chrono::DateTime<chrono::Utc>>().ok().map(|d| d.timestamp())
}

/// Whether an event stamped at `stamp` is within the skew window of `now`,
/// in the past or in the future.
pub open spec fn within_skew_spec(stamp: i64, now: i64) -> bool {
    -MAX_SKEW_SECS <= now - stamp <= MAX_SKEW_SECS
}

pub fn within_skew(stamp: i64, now: i64) -> (r: bool)
    ensures
        r == within_skew_spec(stamp, now),
{
    let d: i128 = (now as i128) - (stamp as i128);
    -(MAX_SKEW_SECS as i128) <= d && d <= MAX_SKEW_SECS as i128
}

pub open spec fn fresh_spec(timestamp: Option<Seq<char>>, now: i64) -> bool {
    match timestamp {
        None => false,
        Some(t) => match rfc3339_seconds(t) {
            None => false,
            Some(stamp) => within_skew_spec(stamp, now),
        },
    }
}

/// Whether the event's timestamp parses and lies within the skew window.
pub fn is_fresh_timestamp(timestamp: Option<&str>, now: i64) -> (r: bool)
    ensures
        r == fresh_spec(opt_view(timestamp), now),
{
    match timestamp {
        None => false,
        Some(t) => match parse_rfc3339(t) {
            None => false,
            Some(stamp) => within_skew(stamp, now),
        },
    }
}

/// The percent-decoding of `s`, if the decoded bytes are UTF-8.
pub uninterp spec fn percent_decoded(s: Seq<char>) -> Option<Seq<char>>;

pub open spec fn no_escapes(s: Seq<char>) -> bool {
    forall|i: int| 0 <= i < s.len() ==> s[i] != '%'
}

/// Relies on `urlencoding::decode`: `%XX` escapes decoded, `+` kept, an
/// error if the result is not UTF-8; a string without `%` comes back as it is.
#[verifier::external_body]
fn percent_decode(s: &str) -> (r: Option<String>)
    ensures
        r is Some <==> percent_decoded(s@) is Some,
        r matches Some(d) ==> percent_decoded(s@) == Some(d@),
        r matches Some(d) ==> (no_escapes(s@) ==> d@ == s@),
        no_escapes(s@) ==> r is Some,
{
    urlencoding::decode(s).ok().map(|d| d.into_owned())
}

/// The Unicode lower-case form of `s`.
pub uninterp spec fn lowercase_of(s: Seq<char>) -> Seq<char>;

/// Relies on `str::to_lowercase`: the result depends on the characters alone.
#[verifier::external_body]
pub(crate) fn lowercase(s: &str) -> (r: String)
    ensures
        r@ == lowercase_of(s@),
{
    s.to_lowercase()
}

pub open spec fn title_word() -> Seq<char> {
    seq!['t', 'i', 't', 'l', 'e']
}

pub open spec fn season_word() -> Seq<char> {
    seq!['s', 'e', 'a', 's', 'o', 'n']
}

/// The token sent, verbatim, by an older encoding of the title property.
pub open spec fn legacy_token() -> Seq<char> {
    seq!['S', 'i', 'v', '%', '5', 'D']
}

/// Whether a decoded, lower-cased property name is one that is watched.
pub open spec fn is_watched_spec(lowered: Seq<char>) -> bool {
    lowered == title_word() || lowered == season_word()
}

/// Whether the decoded, lower-cased property name `lowered` is watched.
pub fn is_watched_name(lowered: &str) -> (r: bool)
    ensures
        r == is_watched_spec(lowered@),
{
    let cs = chars_of(lowered);
    let t: Vec<char> = vec!['t', 'i', 't', 'l', 'e'];
    let s: Vec<char> = vec!['s', 'e', 'a', 's', 'o', 'n'];
    assert(t@ =~= title_word());
    assert(s@ =~= season_word());
    chars_eq(cs.as_slice(), t.as_slice()) || chars_eq(cs.as_slice(), s.as_slice())
}

/// The name a raw property token stands for: decoded if it decodes.
pub open spec fn decoded_or_raw(raw: Seq<char>) -> Seq<char> {
    match percent_decoded(raw) {
        Some(d) => d,
        None => raw,
    }
}

pub open spec fn token_watched(raw: Seq<char>) -> bool {
    raw == legacy_token() || is_watched_spec(lowercase_of(decoded_or_raw(raw)))
}

/// Whether a change to the properties named by `tokens` (raw, possibly
/// percent-encoded) concerns a watched property.
pub fn should_process(tokens: &Vec<String>) -> (r: bool)
    ensures
        r == exists|i: int| 0 <= i < tokens@.len() && token_watched(#[trigger] tokens@[i]@),
{
    let legacy: Vec<char> = vec!['S', 'i', 'v', '%', '5', 'D'];
    assert(legacy@ =~= legacy_token());
    let mut i: usize = 0;
    while i < tokens.len()
        invariant
            i <= tokens@.len(),
            legacy@ == legacy_token(),
            forall|k: int| 0 <= k < i ==> !token_watched(#[trigger] tokens@[k]@),
        decreases tokens@.len() - i,
    {
        let raw = tokens[i].as_str();
        let cs = chars_of(raw);
        if chars_eq(cs.as_slice(), legacy.as_slice()) {
            assert(token_watched(tokens@[i as int]@));
            return true;
        }
        let name = match percent_decode(raw) {
            Some(d) => d,
            None => string_of(cs.as_slice()),
        };
        let lowered = lowercase(name.as_str());
        if is_watched_name(lowered.as_str()) {
            assert(token_watched(tokens@[i as int]@));
            return true;
        }
        i = i + 1;
    }
    false
}

/// The text before the first comma.
pub open spec fn before_comma(s: Seq<char>) -> Seq<char>
    decreases s.len(),
{
    if s.len() == 0 {
        s
    } else if s[0] == ',' {
        Seq::empty()
    } else {
        seq![s[0]] + before_comma(s.drop_first())
    }
}

pub open spec fn unknown_ip() -> Seq<char> {
    seq!['u', 'n', 'k', 'n', 'o', 'w', 'n']
}

/// The client address of a request: the first comma-separated token,
/// trimmed, of the first of the given headers that is present (each is
/// `None` when absent, `Some(None)` when present but not text); `unknown`
/// when that header is missing or not text.
pub open spec fn ip_spec(headers: Seq<Option<Option<Seq<char>>>>) -> Seq<char>
    decreases headers.len(),
{
    if headers.len() == 0 {
        unknown_ip()
    } else {
        match headers[0] {
            None => ip_spec(headers.drop_first()),
            Some(None) => unknown_ip(),
            Some(Some(v)) => trim(before_comma(v)),
        }
    }
}

pub open spec fn header_view(h: Option<Option<&str>>) -> Option<Option<Seq<char>>> {
    match h {
        None => None,
        Some(None) => Some(None),
        Some(Some(v)) => Some(Some(v@)),
    }
}

fn before_comma_chars(s: &[char]) -> (r: Vec<char>)
    ensures
        r@ == before_comma(s@),
{
    let mut i: usize = 0;
    while i < s.len() && s[i] != ','
        invariant
            i <= s@.len(),
            forall|k: int| 0 <= k < i ==> s@[k] != ',',
        decreases s@.len() - i,
    {
        i = i + 1;
    }
    proof {
        lemma_before_comma(s@, i as int);
    }
    crate::text::slice_chars(s, 0, i)
}

proof fn lemma_before_comma(s: Seq<char>, i: int)
    requires
        0 <= i <= s.len(),
        forall|k: int| 0 <= k < i ==> s[k] != ',',
        i == s.len() || s[i] == ',',
    ensures
        before_comma(s) == s.subrange(0, i),
    decreases s.len(),
{
    if s.len() == 0 {
    } else if i == 0 {
        assert(s.subrange(0, 0) =~= Seq::<char>::empty());
    } else {
        lemma_before_comma(s.drop_first(), i - 1);
        assert(seq![s[0]] + s.drop_first().subrange(0, i - 1) =~= s.subrange(0, i));
    }
}

/// The client address from the `cf-connecting-ip`, `x-real-ip` and
/// `x-forwarded-for` headers, in that order of priority.
pub fn extract_ip(
    cf_connecting_ip: Option<Option<&str>>,
    x_real_ip: Option<Option<&str>>,
    x_forwarded_for: Option<Option<&str>>,
) -> (r: String)
    ensures
        r@ == ip_spec(seq![header_view(cf_connecting_ip), header_view(x_real_ip), header_view(x_forwarded_for)]),
{
    let ghost hs = seq![header_view(cf_connecting_ip), header_view(x_real_ip), header_view(x_forwarded_for)];
    proof {
        assert(hs.drop_first() =~= seq![header_view(x_real_ip), header_view(x_forwarded_for)]);
        assert(hs.drop_first().drop_first() =~= seq![header_view(x_forwarded_for)]);
        assert(hs.drop_first().drop_first().drop_first() =~= Seq::<Option<Option<Seq<char>>>>::empty());
        reveal_with_fuel(ip_spec, 4);
    }
    let chosen = match cf_connecting_ip {
        Some(v) => Some(v),
        None => match x_real_ip {
            Some(v) => Some(v),
            None => x_forwarded_for,
        },
    };
    let unknown: Vec<char> = vec!['u', 'n', 'k', 'n', 'o', 'w', 'n'];
    assert(unknown@ =~= unknown_ip());
    match chosen {
        Some(Some(v)) => {
            let cs = chars_of(v);
            let head = before_comma_chars(cs.as_slice());
            let t = trim_chars(head.as_slice());
            string_of(t.as_slice())
        },
        _ => string_of(unknown.as_slice()),
    }
}

pub open spec fn json_media_type() -> Seq<char> {
    seq!['a', 'p', 'p', 'l', 'i', 'c', 'a', 't', 'i', 'o', 'n', '/', 'j', 's', 'o', 'n']
}

/// Whether a content-type header (absent, or not text, as `None`) declares JSON.
pub open spec fn content_type_ok_spec(ct: Option<Seq<char>>) -> bool {
    match ct {
        None => false,
        Some(v) => v.len() >= 16 && v.take(16) == json_media_type(),
    }
}

pub fn content_type_ok(content_type: Option<&str>) -> (r: bool)
    ensures
        r == content_type_ok_spec(opt_view(content_type)),
{
    match content_type {
        None => false,
        Some(v) => {
            let cs = chars_of(v);
            let j: Vec<char> = vec![
                'a', 'p', 'p', 'l', 'i', 'c', 'a', 't', 'i', 'o', 'n', '/', 'j', 's', 'o', 'n',
            ];
            assert(j@ =~= json_media_type());
            if cs.len() < 16 {
                return false;
            }
            let head = crate::text::slice_chars(cs.as_slice(), 0, 16);
            assert(head@ =~= cs@.take(16));
            chars_eq(head.as_slice(), j.as_slice())
        },
    }
}

/// The status code a delivery is answered with.
#[derive(Clone, Copy, Debug, PartialEq, Eq, Structural)]
pub enum Status {
    Success,
    BadRequest,
    Unauthorized,
    PayloadTooLarge,
    UnsupportedMediaType,
    TooManyRequests,
}

impl Status {
    pub open spec fn code_spec(self) -> u16 {
        match self {
            Status::Success => 200,
            Status::BadRequest => 400,
            Status::Unauthorized => 401,
            Status::PayloadTooLarge => 413,
            Status::UnsupportedMediaType => 415,
            Status::TooManyRequests => 429,
        }
    }

    pub fn code(&self) -> (r: u16)
        ensures
            r == self.code_spec(),
    {
        match self {
            Status::Success => 200,
            Status::BadRequest => 400,
            Status::Unauthorized => 401,
            Status::PayloadTooLarge => 413,
            Status::UnsupportedMediaType => 415,
            Status::TooManyRequests => 429,
        }
    }
}

/// The fields of a delivery's JSON body that the pipeline reads.
#[derive(Clone, Debug)]
pub struct WebhookEvent {
    pub id: Option<String>,
    pub timestamp: Option<String>,
    pub event_type: Option<String>,
    pub entity_id: Option<String>,
    /// The string entries of `data.updated_properties`, as sent.
    pub updated_properties: Vec<String>,
}

/// What becomes of a delivery that passed the request checks.
#[derive(Clone, Debug)]
pub enum Decision {
    Reject(Status),
    /// Acknowledged with 200 and not processed.
    Ignore,
    /// Acknowledged with 200; the record `page_id` is to be processed.
    Dispatch { page_id: String, event_id: Option<String> },
}

pub open spec fn page_updated_type() -> Seq<char> {
    seq![
        'p', 'a', 'g', 'e', '.', 'p', 'r', 'o', 'p', 'e', 'r', 't', 'i', 'e', 's', '_', 'u', 'p', 'd',
        'a', 't', 'e', 'd'
    ]
}

pub open spec fn string_opt_view(s: Option<String>) -> Option<Seq<char>> {
    match s {
        Some(v) => Some(v@),
        None => None,
    }
}

pub open spec fn tokens_watched(tokens: Seq<String>) -> bool {
    exists|i: int| 0 <= i < tokens.len() && token_watched(#[trigger] tokens[i]@)
}

/// What a parsed event leads to, with the de-duplication record `s` before
/// and `after` after: the event type, then the freshness of its timestamp
/// at `now`, then whether its id is new and a watched property changed,
/// then the presence of the record id decide.
pub open spec fn event_outcome(s: Seq<(Seq<char>, i64)>, e: WebhookEvent, now: i64, after: Seq<(Seq<char>, i64)>, r: Decision) -> bool {
    let id_new = match e.id {
        Some(id) => admits_event(s, id@, now),
        None => true,
    };
    let checked = string_opt_view(e.event_type) == Some(page_updated_type())
        && fresh_spec(string_opt_view(e.timestamp), now);
    &&& after == match e.id {
        Some(id) if checked => after_event(s, id@, now),
        _ => s,
    }
    &&& if string_opt_view(e.event_type) != Some(page_updated_type()) {
        r == Decision::Ignore
    } else if !fresh_spec(string_opt_view(e.timestamp), now) {
        r == Decision::Reject(Status::BadRequest)
    } else if !id_new || !tokens_watched(e.updated_properties@) {
        r == Decision::Ignore
    } else {
        match e.entity_id {
            None => r == Decision::Reject(Status::BadRequest),
            Some(p) => r matches Decision::Dispatch { page_id, event_id }
                && page_id@ == p@ && string_opt_view(event_id) == string_opt_view(e.id),
        }
    }
}

/// A delivery that was dispatched, delivered again with the same id within
/// the time-to-live (the record not cleared for size in between), is not
/// dispatched again: the replay does no processing.
pub proof fn lemma_replayed_delivery_is_not_dispatched(
    s0: Seq<(Seq<char>, i64)>,
    e: WebhookEvent,
    first: i64,
    s1: Seq<(Seq<char>, i64)>,
    r1: Decision,
    later: i64,
    s2: Seq<(Seq<char>, i64)>,
    r2: Decision,
)
    requires
        e.id is Some,
        event_outcome(s0, e, first, s1, r1),
        event_outcome(s1, e, later, s2, r2),
        r1 is Dispatch,
        first <= later,
        later - first <= crate::dedup::DEDUPE_TTL_SECS,
        crate::dedup::live_entries(s1, later).len() <= crate::dedup::MAX_DEDUPE_ENTRIES,
    ensures
        !(r2 is Dispatch),
{
    let id = e.id->0@;
    crate::dedup::lemma_replay_within_ttl_is_refused(s0, id, first, later);
}

/// The shared state of the endpoint: rate counters, recent event ids and
/// the signing secret.
pub struct Gateway {
    pub rate_limits: RateTable,
    pub global_limit: WindowCounter,
    pub recent_events: DedupCache,
    pub signing_secret: String,
}

pub open spec fn ip_ceiling() -> u32 {
    (PER_IP_LIMIT + PER_IP_BURST) as u32
}

pub open spec fn global_ceiling() -> u32 {
    (GLOBAL_LIMIT + GLOBAL_BURST) as u32
}

impl Gateway {
    pub open spec fn wf(&self) -> bool {
        self.rate_limits.wf()
    }

    pub fn new(signing_secret: String) -> (r: Gateway)
        ensures
            r.wf(),
            r.signing_secret == signing_secret,
            r.recent_events@ == Seq::<(Seq<char>, i64)>::empty(),
            r.global_limit == (WindowCounter { window: 0, count: 0 }),
    {
        Gateway {
            rate_limits: RateTable::new(),
            global_limit: WindowCounter::new(0),
            recent_events: DedupCache::new(),
            signing_secret,
        }
    }

    /// The checks made before the body is parsed, in order: the per-address
    /// and then the global rate limit for minute bucket `window`, the body
    /// size, the content type and the signature. Returns the status of the
    /// first that fails, or `None` if all pass. The global counter is only
    /// consulted when the per-address one admitted the request.
    pub fn screen_request(
        &mut self,
        ip: &str,
        window: u64,
        body: &[u8],
        content_type: Option<&str>,
        signature: Option<&str>,
    ) -> (r: Option<Status>)
        requires
            old(self).wf(),
        ensures
            final(self).wf(),
            final(self).signing_secret == old(self).signing_secret,
            final(self).recent_events@ == old(self).recent_events@,
            ({
                let ip_ok = old(self).rate_limits.count(ip@, window) < ip_ceiling();
                let global_ok = admits(old(self).global_limit, window, global_ceiling());
                &&& final(self).rate_limits.count(ip@, window) == if ip_ok {
                    old(self).rate_limits.count(ip@, window) + 1
                } else {
                    old(self).rate_limits.count(ip@, window) as int
                }
                &&& final(self).global_limit == if ip_ok {
                    after_check(old(self).global_limit, window, global_ceiling())
                } else {
                    old(self).global_limit
                }
                &&& r == if !ip_ok || !global_ok {
                    Some(Status::TooManyRequests)
                } else if body@.len() > MAX_BODY_BYTES {
                    Some(Status::PayloadTooLarge)
                } else if !content_type_ok_spec(opt_view(content_type)) {
                    Some(Status::UnsupportedMediaType)
                } else if !signature_valid(opt_view(signature), body@, old(self).signing_secret@) {
                    Some(Status::Unauthorized)
                } else {
                    None
                }
            }),
    {
        let ip_ok = self.rate_limits.check(ip, window, PER_IP_LIMIT + PER_IP_BURST);
        if !ip_ok {
            return Some(Status::TooManyRequests);
        }
        let global_ok = self.global_limit.check(window, GLOBAL_LIMIT + GLOBAL_BURST);
        if !global_ok {
            return Some(Status::TooManyRequests);
        }
        if body.len() > MAX_BODY_BYTES {
            return Some(Status::PayloadTooLarge);
        }
        if !content_type_ok(content_type) {
            return Some(Status::UnsupportedMediaType);
        }
        if !verify_signature(signature, body, self.signing_secret.as_str()) {
            return Some(Status::Unauthorized);
        }
        None
    }

    /// The checks on a parsed body (`None` when it is not JSON), in order:
    /// the event type, the freshness of its timestamp at `now`, the
    /// de-duplication of its id, the watched properties and the presence of
    /// the record id.
    pub fn admit_event(&mut self, event: Option<&WebhookEvent>, now: i64) -> (r: Decision)
        requires
            old(self).wf(),
        ensures
            final(self).wf(),
            final(self).signing_secret == old(self).signing_secret,
            final(self).rate_limits == old(self).rate_limits,
            final(self).global_limit == old(self).global_limit,
            match event {
                None => r == Decision::Reject(Status::BadRequest) && final(self).recent_events@
                    == old(self).recent_events@,
                Some(e) => event_outcome(old(self).recent_events@, *e, now, final(self).recent_events@, r),
            },
    {
        let e = match event {
            None => return Decision::Reject(Status::BadRequest),
            Some(e) => e,
        };
        let is_update = match &e.event_type {
            Some(t) => {
                let cs = chars_of(t.as_str());
                let want: Vec<char> = vec![
                    'p', 'a', 'g', 'e', '.', 'p', 'r', 'o', 'p', 'e', 'r', 't', 'i', 'e', 's', '_',
                    'u', 'p', 'd', 'a', 't', 'e', 'd',
                ];
                assert(want@ =~= page_updated_type());
                chars_eq(cs.as_slice(), want.as_slice())
            },
            None => false,
        };
        if !is_update {
            return Decision::Ignore;
        }
        let ts = match &e.timestamp {
            Some(t) => Some(t.as_str()),
            None => None,
        };
        if !is_fresh_timestamp(ts, now) {
            return Decision::Reject(Status::BadRequest);
        }
        match &e.id {
            Some(id) => {
                if !self.recent_events.record_event(id.as_str(), now) {
                    return Decision::Ignore;
                }
            },
            None => {},
        }
        if !should_process(&e.updated_properties) {
            return Decision::Ignore;
        }
        match &e.entity_id {
            None => Decision::Reject(Status::BadRequest),
            Some(p) => Decision::Dispatch { page_id: p.clone(), event_id: e.id.clone() },
        }
    }
}

} // verus!
