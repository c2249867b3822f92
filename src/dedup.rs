//! Recently seen event ids, so that a replayed delivery is acknowledged
//! without being processed twice.
use vstd::prelude::*;

verus! {

/// How long an event id is remembered, in seconds.
pub const DEDUPE_TTL_SECS: i64 = 600;

/// Above this many remembered ids the whole record is cleared.
pub const MAX_DEDUPE_ENTRIES: usize = 10000;

/// An entry seen at `e.1` is still remembered at `now`.
pub open spec fn is_live(e: (Seq<char>, i64), now: i64) -> bool {
    now - e.1 <= DEDUPE_TTL_SECS
}

pub open spec fn live_at(now: i64) -> spec_fn((Seq<char>, i64)) -> bool {
    |e: (Seq<char>, i64)| is_live(e, now)
}

pub open spec fn live_entries(s: Seq<(Seq<char>, i64)>, now: i64) -> Seq<(Seq<char>, i64)> {
    s.filter(live_at(now))
}

/// The entries left at `now`: the live ones, or none if they are too many.
pub open spec fn kept_entries(s: Seq<(Seq<char>, i64)>, now: i64) -> Seq<(Seq<char>, i64)> {
    if live_entries(s, now).len() > MAX_DEDUPE_ENTRIES {
        Seq::empty()
    } else {
        live_entries(s, now)
    }
}

pub open spec fn has_id(s: Seq<(Seq<char>, i64)>, id: Seq<char>) -> bool {
    exists|i: int| 0 <= i < s.len() && #[trigger] s[i].0 == id
}

/// Whether an event `id` arriving at `now` is new.
pub open spec fn admits_event(s: Seq<(Seq<char>, i64)>, id: Seq<char>, now: i64) -> bool {
    !has_id(kept_entries(s, now), id)
}

/// The record after an event `id` arrived at `now`.
pub open spec fn after_event(s: Seq<(Seq<char>, i64)>, id: Seq<char>, now: i64) -> Seq<(Seq<char>, i64)> {
    if admits_event(s, id, now) {
        kept_entries(s, now).push((id, now))
    } else {
        kept_entries(s, now)
    }
}

/// Event ids with the time each was first admitted, oldest first.
pub struct DedupCache {
    pub entries: Vec<(String, i64)>,
}

impl View for DedupCache {
    type V = Seq<(Seq<char>, i64)>;

    open spec fn view(&self) -> Seq<(Seq<char>, i64)> {
        self.entries@.map_values(|e: (String, i64)| (e.0@, e.1))
    }
}

impl DedupCache {
    pub fn new() -> (r: DedupCache)
        ensures
            r@ == Seq::<(Seq<char>, i64)>::empty(),
    {
        DedupCache { entries: Vec::new() }
    }

    /// Drops the entries older than the time-to-live at `now`.
    fn prune(&mut self, now: i64)
        ensures
            final(self)@ == live_entries(old(self)@, now),
    {
        let mut kept: Vec<(String, i64)> = Vec::new();
        let mut i: usize = 0;
        while i < self.entries.len()
            invariant
                i <= self.entries@.len(),
                kept@.map_values(|e: (String, i64)| (e.0@, e.1)) == self@.take(i as int).filter(live_at(now)),
            decreases self.entries@.len() - i,
        {
            let ghost k0 = kept@;
            let ghost t = self@.take(i as int + 1);
            proof {
                reveal(Seq::filter);
                assert(t.drop_last() =~= self@.take(i as int));
                assert(t.last() == self@[i as int]);
            }
            assert(self@[i as int].1 == self.entries@[i as int].1);
            let age: i128 = (now as i128) - (self.entries[i].1 as i128);
            if age <= DEDUPE_TTL_SECS as i128 {
                assert(is_live(self@[i as int], now));
                assert(live_at(now)(self@[i as int]));
                assert(t.filter(live_at(now)) == self@.take(i as int).filter(live_at(now)).push(self@[i as int])) by {
                    reveal(Seq::filter);
                }
                kept.push((self.entries[i].0.clone(), self.entries[i].1));
                assert(kept@.map_values(|e: (String, i64)| (e.0@, e.1)) =~= k0.map_values(
                    |e: (String, i64)| (e.0@, e.1),
                ).push(self@[i as int]));
            } else {
                assert(!is_live(self@[i as int], now));
                assert(!live_at(now)(self@[i as int]));
                assert(t.filter(live_at(now)) == self@.take(i as int).filter(live_at(now))) by {
                    reveal(Seq::filter);
                }
            }
            i = i + 1;
        }
        assert(self@.take(self@.len() as int) =~= self@);
        self.entries = kept;
    }

    fn contains(&self, id: &String) -> (r: bool)
        ensures
            r == has_id(self@, id@),
    {
        let mut i: usize = 0;
        while i < self.entries.len()
            invariant
                i <= self.entries@.len(),
                forall|k: int| 0 <= k < i ==> #[trigger] self@[k].0 != id@,
            decreases self.entries@.len() - i,
        {
            if self.entries[i].0 == *id {
                assert(self@[i as int].0 == id@);
                return true;
            }
            i = i + 1;
        }
        false
    }

    /// Records the event `event_id` arriving at `now` (seconds). Returns
    /// whether it is new; a repeat of a remembered id is not recorded again.
    pub fn record_event(&mut self, event_id: &str, now: i64) -> (r: bool)
        ensures
            r == admits_event(old(self)@, event_id@, now),
            final(self)@ == after_event(old(self)@, event_id@, now),
    {
        self.prune(now);
        if self.entries.len() > MAX_DEDUPE_ENTRIES {
            self.entries.clear();
            assert(self@ =~= Seq::<(Seq<char>, i64)>::empty());
        }
        let key = event_id.to_owned();
        if self.contains(&key) {
            return false;
        }
        let ghost before = self@;
        self.entries.push((key, now));
        assert(self@ =~= before.push((event_id@, now)));
        true
    }
}

/// An event admitted at `first` is refused when it is delivered again at
/// `later`, within the time-to-live, unless the record was cleared for
/// holding too many ids.
pub proof fn lemma_replay_within_ttl_is_refused(s: Seq<(Seq<char>, i64)>, id: Seq<char>, first: i64, later: i64)
    requires
        admits_event(s, id, first),
        first <= later,
        later - first <= DEDUPE_TTL_SECS,
        live_entries(after_event(s, id, first), later).len() <= MAX_DEDUPE_ENTRIES,
    ensures
        !admits_event(after_event(s, id, first), id, later),
{
    let a = after_event(s, id, first);
    let pred = live_at(later);
    let i = a.len() - 1;
    assert(a[i] == (id, first));
    a.lemma_filter_contains(pred, i);
    let j = choose|j: int| 0 <= j < a.filter(pred).len() && a.filter(pred)[j] == a[i];
    assert(kept_entries(a, later)[j].0 == id);
}

/// An id whose every record is older than the time-to-live at `now` is
/// admitted again.
pub proof fn lemma_expired_id_is_admitted(s: Seq<(Seq<char>, i64)>, id: Seq<char>, now: i64)
    requires
        forall|i: int| 0 <= i < s.len() && #[trigger] s[i].0 == id ==> now - s[i].1 > DEDUPE_TTL_SECS,
    ensures
        admits_event(s, id, now),
{
    let pred = live_at(now);
    let f = s.filter(pred);
    assert forall|k: int| 0 <= k < kept_entries(s, now).len() implies #[trigger] kept_entries(s, now)[k].0
        != id by {
        s.lemma_filter_pred(pred, k);
        s.lemma_filter_contains_rev(pred, f[k]);
        let m = choose|m: int| 0 <= m < s.len() && s[m] == f[k];
        if f[k].0 == id {
            assert(s[m].0 == id);
        }
    }
}

/// A full record is cleared, so the next event is admitted whatever its id.
pub proof fn lemma_cleared_at_capacity(s: Seq<(Seq<char>, i64)>, id: Seq<char>, now: i64)
    requires
        live_entries(s, now).len() > MAX_DEDUPE_ENTRIES,
    ensures
        admits_event(s, id, now),
        after_event(s, id, now) == seq![(id, now)],
{
    assert(Seq::<(Seq<char>, i64)>::empty().push((id, now)) =~= seq![(id, now)]);
}

} // verus!
