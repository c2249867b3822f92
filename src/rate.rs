//! Fixed-minute-bucket request counters, one per source address plus one
//! shared by all requests.
use vstd::prelude::*;

verus! {

/// Requests admitted per address in one minute, before the burst allowance.
pub const PER_IP_LIMIT: u32 = 60;

pub const PER_IP_BURST: u32 = 10;

/// Requests admitted over all addresses in one minute, before the burst allowance.
pub const GLOBAL_LIMIT: u32 = 200;

pub const GLOBAL_BURST: u32 = 20;

/// Above this many tracked addresses, counters of past minutes are dropped.
pub const MAX_RATE_LIMIT_ENTRIES: usize = 10000;

/// The minute bucket of a time in seconds since the epoch.
pub fn minute_bucket(now: i64) -> (r: u64)
    requires
        now >= 0,
    ensures
        r == now / 60,
{
    (now / 60) as u64
}

/// Requests counted in the minute bucket `window`.
#[derive(Clone, Copy, Debug, PartialEq, Eq, Structural)]
pub struct WindowCounter {
    pub window: u64,
    pub count: u32,
}

/// What the counter has counted in bucket `window`: nothing if it last
/// counted another bucket.
pub open spec fn count_in(c: WindowCounter, window: u64) -> u32 {
    if c.window == window {
        c.count
    } else {
        0
    }
}

/// Whether one more request in `window` stays within `ceiling`.
pub open spec fn admits(c: WindowCounter, window: u64, ceiling: u32) -> bool {
    count_in(c, window) < ceiling
}

/// The counter after one request in `window` was checked against `ceiling`.
pub open spec fn after_check(c: WindowCounter, window: u64, ceiling: u32) -> WindowCounter {
    WindowCounter {
        window,
        count: if admits(c, window, ceiling) {
            (count_in(c, window) + 1) as u32
        } else {
            count_in(c, window)
        },
    }
}

/// The counter after `k` requests in `window`, checked one after another.
pub open spec fn after_checks(c: WindowCounter, window: u64, ceiling: u32, k: nat) -> WindowCounter
    decreases k,
{
    if k == 0 {
        c
    } else {
        after_check(after_checks(c, window, ceiling, (k - 1) as nat), window, ceiling)
    }
}

impl WindowCounter {
    pub fn new(window: u64) -> (r: WindowCounter)
        ensures
            r.window == window,
            r.count == 0,
    {
        WindowCounter { window, count: 0 }
    }

    /// Counts one request in bucket `window`; a new bucket starts from zero.
    /// Returns whether the request is within `ceiling`.
    pub fn check(&mut self, window: u64, ceiling: u32) -> (r: bool)
        ensures
            r == admits(*old(self), window, ceiling),
            *final(self) == after_check(*old(self), window, ceiling),
    {
        if self.window != window {
            self.window = window;
            self.count = 0;
        }
        if self.count >= ceiling {
            return false;
        }
        self.count = self.count + 1;
        true
    }
}

/// Within one minute bucket, starting from a counter of another bucket (or a
/// fresh one), exactly `ceiling` requests are admitted: the `k`-th request
/// passes if and only if fewer than `ceiling` came before it. A request in a
/// new bucket is counted from zero again.
pub proof fn lemma_window_admits_exactly_ceiling(c: WindowCounter, window: u64, ceiling: u32, k: nat)
    requires
        count_in(c, window) == 0,
    ensures
        count_in(after_checks(c, window, ceiling, k), window) == if k < ceiling {
            k
        } else {
            ceiling as nat
        },
        admits(after_checks(c, window, ceiling, k), window, ceiling) <==> k < ceiling,
        k > 0 ==> forall|later: u64|
            later != window ==> #[trigger] count_in(after_checks(c, window, ceiling, k), later) == 0,
    decreases k,
{
    if k > 0 {
        lemma_window_admits_exactly_ceiling(c, window, ceiling, (k - 1) as nat);
    }
}

/// One counter per source address.
pub struct RateTable {
    pub entries: Vec<(String, WindowCounter)>,
}

/// What the table has counted for `ip` in bucket `window`.
pub open spec fn table_count(entries: Seq<(String, WindowCounter)>, ip: Seq<char>, window: u64) -> u32
    decreases entries.len(),
{
    if entries.len() == 0 {
        0
    } else if entries.last().0@ == ip {
        count_in(entries.last().1, window)
    } else {
        table_count(entries.drop_last(), ip, window)
    }
}

/// No counter holds more than `c` requests.
pub open spec fn counts_within(entries: Seq<(String, WindowCounter)>, c: u32) -> bool {
    forall|i: int| 0 <= i < entries.len() ==> #[trigger] entries[i].1.count <= c
}

/// Every counter counts the bucket `window`.
pub open spec fn all_in_window(entries: Seq<(String, WindowCounter)>, window: u64) -> bool {
    forall|i: int| 0 <= i < entries.len() ==> #[trigger] entries[i].1.window == window
}

/// No two entries share an address.
pub open spec fn keys_unique(entries: Seq<(String, WindowCounter)>) -> bool {
    forall|a: int, b: int|
        0 <= a < b < entries.len() ==> #[trigger] entries[a].0@ != #[trigger] entries[b].0@
}

impl RateTable {
    pub open spec fn wf(&self) -> bool {
        keys_unique(self.entries@)
    }

    pub open spec fn count(&self, ip: Seq<char>, window: u64) -> u32 {
        table_count(self.entries@, ip, window)
    }

    pub fn new() -> (r: RateTable)
        ensures
            r.wf(),
            forall|ip: Seq<char>, w: u64| #[trigger] r.count(ip, w) == 0,
    {
        RateTable { entries: Vec::new() }
    }

    /// Position of the last entry for `ip`.
    fn position(&self, ip: &String) -> (r: Option<usize>)
        ensures
            match r {
                Some(i) => i < self.entries@.len() && self.entries@[i as int].0@ == ip@
                    && forall|j: int|
                    i < j < self.entries@.len() ==> #[trigger] self.entries@[j].0@ != ip@,
                None => forall|j: int|
                    0 <= j < self.entries@.len() ==> #[trigger] self.entries@[j].0@ != ip@,
            },
    {
        let mut i: usize = self.entries.len();
        while i > 0
            invariant
                i <= self.entries@.len(),
                forall|j: int| i <= j < self.entries@.len() ==> #[trigger] self.entries@[j].0@ != ip@,
            decreases i,
        {
            if self.entries[i - 1].0 == *ip {
                return Some(i - 1);
            }
            i = i - 1;
        }
        None
    }

    /// Drops the counters of buckets other than `window`.
    fn retain_window(&mut self, window: u64)
        requires
            old(self).wf(),
        ensures
            final(self).wf(),
            forall|ip: Seq<char>| #[trigger]
                final(self).count(ip, window) == old(self).count(ip, window),
            all_in_window(final(self).entries@, window),
            forall|c: u32| #[trigger] counts_within(old(self).entries@, c) ==> counts_within(final(self).entries@, c),
    {
        let mut kept: Vec<(String, WindowCounter)> = Vec::new();
        let mut i: usize = 0;
        while i < self.entries.len()
            invariant
                i <= self.entries@.len(),
                keys_unique(self.entries@),
                keys_unique(kept@),
                all_in_window(kept@, window),
                forall|c: u32| #[trigger] counts_within(self.entries@, c) ==> counts_within(kept@, c),
                forall|a: int, m: int|
                    0 <= a < kept@.len() && i <= m < self.entries@.len() ==> #[trigger] self.entries@[m].0@
                        != #[trigger] kept@[a].0@,
                forall|ip: Seq<char>|
                    #[trigger] table_count(kept@, ip, window) == table_count(
                        self.entries@.take(i as int),
                        ip,
                        window,
                    ),
            decreases self.entries@.len() - i,
        {
            let e = &self.entries[i];
            assert(self.entries@.take(i as int + 1).drop_last() =~= self.entries@.take(i as int));
            assert(self.entries@.take(i as int + 1).last() == self.entries@[i as int]);
            if e.1.window == window {
                let ghost k0 = kept@;
                kept.push((e.0.clone(), e.1));
                assert(kept@.drop_last() =~= k0);
                assert(all_in_window(kept@, window)) by {
                    assert forall|a: int| 0 <= a < kept@.len() implies #[trigger] kept@[a].1.window == window by {
                        if a < k0.len() {
                            assert(kept@[a] == k0[a]);
                        }
                    }
                }
                assert forall|c: u32| #[trigger] counts_within(self.entries@, c) implies counts_within(kept@, c) by {
                    assert(counts_within(k0, c));
                    assert(self.entries@[i as int].1.count <= c);
                    assert forall|a: int| 0 <= a < kept@.len() implies #[trigger] kept@[a].1.count <= c by {
                        if a < k0.len() {
                            assert(kept@[a] == k0[a]);
                        }
                    }
                }
                assert forall|a: int, b: int| 0 <= a < b < kept@.len() implies #[trigger] kept@[a].0@
                    != #[trigger] kept@[b].0@ by {
                    if b == kept@.len() - 1 {
                        assert(self.entries@[i as int].0@ != k0[a].0@);
                    } else {
                        assert(k0[a] == kept@[a] && k0[b] == kept@[b]);
                    }
                }
                assert forall|a: int, m: int|
                    0 <= a < kept@.len() && i + 1 <= m < self.entries@.len() implies #[trigger] self.entries@[m].0@
                        != #[trigger] kept@[a].0@ by {
                    if a == kept@.len() - 1 {
                        assert(self.entries@[i as int].0@ != self.entries@[m].0@);
                    } else {
                        assert(k0[a] == kept@[a]);
                    }
                }
                assert forall|ip: Seq<char>| #[trigger]
                    table_count(kept@, ip, window) == table_count(
                        self.entries@.take(i as int + 1),
                        ip,
                        window,
                    ) by {
                    assert(kept@.last().0@ == self.entries@[i as int].0@);
                    if ip != self.entries@[i as int].0@ {
                        assert(table_count(kept@, ip, window) == table_count(k0, ip, window));
                    }
                }
            } else {
                assert forall|ip: Seq<char>| #[trigger]
                    table_count(kept@, ip, window) == table_count(
                        self.entries@.take(i as int + 1),
                        ip,
                        window,
                    ) by {
                    let t = self.entries@.take(i as int + 1);
                    assert(t.last() == self.entries@[i as int]);
                    if ip == self.entries@[i as int].0@ {
                        assert forall|j: int| 0 <= j < t.drop_last().len() implies #[trigger] t.drop_last()[j].0@
                            != ip by {
                            assert(self.entries@[j].0@ != self.entries@[i as int].0@);
                        }
                        lemma_count_none(t.drop_last(), ip, window);
                    }
                }
            }
            i = i + 1;
        }
        assert(self.entries@.take(self.entries@.len() as int) =~= self.entries@);
        self.entries = kept;
    }

    /// Counts one request from `ip` in bucket `window` against `ceiling`.
    /// Returns whether it is admitted; the counts of other addresses in that
    /// bucket are unchanged.
    pub fn check(&mut self, ip: &str, window: u64, ceiling: u32) -> (r: bool)
        requires
            old(self).wf(),
        ensures
            final(self).wf(),
            r == (old(self).count(ip@, window) < ceiling),
            final(self).count(ip@, window) == if r {
                old(self).count(ip@, window) + 1
            } else {
                old(self).count(ip@, window) as int
            },
            forall|other: Seq<char>|
                other != ip@ ==> #[trigger] final(self).count(other, window) == old(self).count(
                    other,
                    window,
                ),
            counts_within(old(self).entries@, ceiling) ==> counts_within(final(self).entries@, ceiling),
            old(self).entries@.len() > MAX_RATE_LIMIT_ENTRIES ==> all_in_window(final(self).entries@, window),
            old(self).entries@.len() <= MAX_RATE_LIMIT_ENTRIES ==> forall|other: Seq<char>, w: u64|
                other != ip@ ==> #[trigger] final(self).count(other, w) == old(self).count(other, w),
    {
        let over = self.entries.len() > MAX_RATE_LIMIT_ENTRIES;
        if over {
            self.retain_window(window);
        }
        let ghost mid = *self;
        assert(counts_within(old(self).entries@, ceiling) ==> counts_within(mid.entries@, ceiling));
        assert(over ==> all_in_window(mid.entries@, window));
        assert(!over ==> mid.entries@ == old(self).entries@);
        assert(mid.count(ip@, window) == old(self).count(ip@, window));
        assert forall|other: Seq<char>| #[trigger] mid.count(other, window) == old(self).count(other, window) by {}
        let key = ip.to_owned();
        match self.position(&key) {
            Some(i) => {
                let mut c = self.entries[i].1;
                let r = c.check(window, ceiling);
                let ghost before = self.entries@;
                proof {
                    lemma_count_at(before, i as int, ip@, window);
                }
                assert(r == (table_count(before, ip@, window) < ceiling));
                self.entries.set(i, (key, c));
                proof {
                    assert forall|a: int, b: int| 0 <= a < b < self.entries@.len() implies #[trigger] self.entries@[a].0@
                        != #[trigger] self.entries@[b].0@ by {
                        assert(before[a].0@ != before[b].0@);
                    }
                    lemma_count_at(self.entries@, i as int, ip@, window);
                    assert forall|other: Seq<char>| other != ip@ implies #[trigger] table_count(
                        self.entries@,
                        other,
                        window,
                    ) == table_count(before, other, window) by {
                        lemma_count_update(before, i as int, self.entries@[i as int], other, window);
                    }
                    assert forall|other: Seq<char>| other != ip@ implies #[trigger] self.count(other, window)
                        == mid.count(other, window) by {
                        lemma_count_update(before, i as int, self.entries@[i as int], other, window);
                    }
                    assert forall|other: Seq<char>, w: u64| other != ip@ implies #[trigger] self.count(other, w)
                        == mid.count(other, w) by {
                        lemma_count_update(before, i as int, self.entries@[i as int], other, w);
                    }
                    if counts_within(before, ceiling) {
                        assert(before[i as int].1.count <= ceiling);
                        assert forall|a: int| 0 <= a < self.entries@.len() implies #[trigger] self.entries@[a].1.count
                            <= ceiling by {
                            if a != i {
                                assert(self.entries@[a] == before[a]);
                            }
                        }
                    }
                    if all_in_window(before, window) {
                        assert forall|a: int| 0 <= a < self.entries@.len() implies #[trigger] self.entries@[a].1.window
                            == window by {
                            if a != i {
                                assert(self.entries@[a] == before[a]);
                            }
                        }
                    }
                }
                r
            },
            None => {
                let mut c = WindowCounter::new(window);
                let r = c.check(window, ceiling);
                let ghost before = self.entries@;
                proof {
                    lemma_count_none(before, ip@, window);
                }
                self.entries.push((key, c));
                assert(self.entries@.drop_last() =~= before);
                assert forall|other: Seq<char>| other != ip@ implies #[trigger] self.count(other, window)
                    == mid.count(other, window) by {
                    assert(self.entries@.last().0@ == ip@);
                }
                assert forall|other: Seq<char>, w: u64| other != ip@ implies #[trigger] self.count(other, w)
                    == mid.count(other, w) by {
                    assert(self.entries@.last().0@ == ip@);
                }
                assert(counts_within(before, ceiling) ==> counts_within(self.entries@, ceiling)) by {
                    if counts_within(before, ceiling) {
                        assert forall|a: int| 0 <= a < self.entries@.len() implies #[trigger] self.entries@[a].1.count
                            <= ceiling by {
                            if a < before.len() {
                                assert(self.entries@[a] == before[a]);
                            }
                        }
                    }
                }
                assert(all_in_window(before, window) ==> all_in_window(self.entries@, window)) by {
                    if all_in_window(before, window) {
                        assert forall|a: int| 0 <= a < self.entries@.len() implies #[trigger] self.entries@[a].1.window
                            == window by {
                            if a < before.len() {
                                assert(self.entries@[a] == before[a]);
                            }
                        }
                    }
                }
                assert forall|a: int, b: int| 0 <= a < b < self.entries@.len() implies #[trigger] self.entries@[a].0@
                    != #[trigger] self.entries@[b].0@ by {
                    if b < before.len() {
                        assert(before[a].0@ != before[b].0@);
                    } else {
                        assert(before[a].0@ != ip@);
                    }
                }
                r
            },
        }
    }

}

proof fn lemma_count_none(s: Seq<(String, WindowCounter)>, ip: Seq<char>, w: u64)
    requires
        forall|j: int| 0 <= j < s.len() ==> #[trigger] s[j].0@ != ip,
    ensures
        table_count(s, ip, w) == 0,
    decreases s.len(),
{
    if s.len() > 0 {
        assert(s.last() == s[s.len() - 1]);
        lemma_count_none(s.drop_last(), ip, w);
    }
}

proof fn lemma_count_at(s: Seq<(String, WindowCounter)>, i: int, ip: Seq<char>, w: u64)
    requires
        0 <= i < s.len(),
        s[i].0@ == ip,
        forall|j: int| i < j < s.len() ==> #[trigger] s[j].0@ != ip,
    ensures
        table_count(s, ip, w) == count_in(s[i].1, w),
    decreases s.len(),
{
    if i < s.len() - 1 {
        assert(s.last() == s[s.len() - 1]);
        lemma_count_at(s.drop_last(), i, ip, w);
    }
}

proof fn lemma_count_update(s: Seq<(String, WindowCounter)>, i: int, e: (String, WindowCounter), other: Seq<char>, w: u64)
    requires
        0 <= i < s.len(),
        s[i].0@ == e.0@,
        other != e.0@,
    ensures
        table_count(s.update(i, e), other, w) == table_count(s, other, w),
    decreases s.len(),
{
    let t = s.update(i, e);
    if i == s.len() - 1 {
        assert(t.drop_last() =~= s.drop_last());
    } else {
        assert(t.drop_last() =~= s.drop_last().update(i, e));
        lemma_count_update(s.drop_last(), i, e, other, w);
    }
}

/// Successive checks of one address in one minute bucket, starting from no
/// count, each related to the next as `RateTable::check` states: exactly the
/// first `ceiling` requests are admitted, and every later one is refused.
pub proof fn lemma_table_admits_exactly_ceiling(
    tables: Seq<RateTable>,
    admitted: Seq<bool>,
    ip: Seq<char>,
    window: u64,
    ceiling: u32,
)
    requires
        tables.len() == admitted.len() + 1,
        tables[0].count(ip, window) == 0,
        forall|i: int|
            0 <= i < admitted.len() ==> (#[trigger] admitted[i] == (tables[i].count(ip, window) < ceiling)
                && tables[i + 1].count(ip, window) == if admitted[i] {
                tables[i].count(ip, window) + 1
            } else {
                tables[i].count(ip, window) as int
            }),
    ensures
        forall|i: int| 0 <= i < admitted.len() ==> (#[trigger] admitted[i] <==> i < ceiling),
{
    assert forall|i: int| 0 <= i < admitted.len() implies (#[trigger] admitted[i] <==> i < ceiling) by {
        lemma_table_count_is(tables, admitted, ip, window, ceiling, i);
    }
}

proof fn lemma_table_count_is(
    tables: Seq<RateTable>,
    admitted: Seq<bool>,
    ip: Seq<char>,
    window: u64,
    ceiling: u32,
    k: int,
)
    requires
        tables.len() == admitted.len() + 1,
        tables[0].count(ip, window) == 0,
        forall|i: int|
            0 <= i < admitted.len() ==> (#[trigger] admitted[i] == (tables[i].count(ip, window) < ceiling)
                && tables[i + 1].count(ip, window) == if admitted[i] {
                tables[i].count(ip, window) + 1
            } else {
                tables[i].count(ip, window) as int
            }),
        0 <= k <= admitted.len(),
    ensures
        tables[k].count(ip, window) == if k < ceiling { k } else { ceiling as int },
    decreases k,
{
    if k > 0 {
        lemma_table_count_is(tables, admitted, ip, window, ceiling, k - 1);
        assert(admitted[k - 1] == (tables[k - 1].count(ip, window) < ceiling));
    }
}

} // verus!
