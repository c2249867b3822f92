//! A cache keyed by catalog id whose entries expire after a time-to-live
//! and which is emptied when it grows past a ceiling.
use vstd::prelude::*;

verus! {

/// How long relation and title entries are kept, in seconds.
pub const CATALOG_CACHE_TTL_SECS: u64 = 86400;

/// Above this many entries the cache is emptied before an insertion.
pub const MAX_CACHE_ENTRIES: usize = 20000;

/// Entries as (key, insertion time in seconds, value).
pub struct TtlCache<V> {
    pub entries: Vec<(i32, u64, V)>,
    pub ttl_secs: u64,
    pub max_entries: usize,
}

/// Whether an entry inserted at `inserted` is still fresh at `now`.
pub open spec fn is_fresh(inserted: u64, now: u64, ttl: u64) -> bool {
    now - inserted < ttl
}

pub open spec fn fresh_at<V>(now: u64, ttl: u64) -> spec_fn((i32, u64, V)) -> bool {
    |e: (i32, u64, V)| is_fresh(e.1, now, ttl)
}

pub open spec fn keys_unique<V>(s: Seq<(i32, u64, V)>) -> bool {
    forall|a: int, b: int| 0 <= a < b < s.len() ==> #[trigger] s[a].0 != #[trigger] s[b].0
}

/// The position of the entry for `key`, if any.
pub open spec fn has_key<V>(s: Seq<(i32, u64, V)>, key: i32) -> bool {
    exists|i: int| 0 <= i < s.len() && #[trigger] s[i].0 == key
}

fn is_fresh_exec(inserted: u64, now: u64, ttl: u64) -> (r: bool)
    ensures
        r == is_fresh(inserted, now, ttl),
{
    now < inserted || now - inserted < ttl
}

impl<V> TtlCache<V> {
    pub open spec fn wf(&self) -> bool {
        keys_unique(self.entries@)
    }

    pub fn new(ttl_secs: u64, max_entries: usize) -> (r: TtlCache<V>)
        ensures
            r.wf(),
            r.entries@.len() == 0,
            r.ttl_secs == ttl_secs,
            r.max_entries == max_entries,
    {
        TtlCache { entries: Vec::new(), ttl_secs, max_entries }
    }

    /// Drops the entries that are no longer fresh at `now`.
    pub fn prune(&mut self, now: u64)
        requires
            old(self).wf(),
        ensures
            final(self).wf(),
            final(self).ttl_secs == old(self).ttl_secs,
            final(self).max_entries == old(self).max_entries,
            final(self).entries@ == old(self).entries@.filter(fresh_at(now, old(self).ttl_secs)),
    {
        let ghost all = self.entries@;
        let n0 = self.entries.len();
        let ttl = self.ttl_secs;
        let mut i: usize = 0;
        let mut j: usize = 0;
        proof {
            assert(all.take(0).filter(fresh_at(now, ttl)) =~= Seq::<(i32, u64, V)>::empty()) by {
                reveal(Seq::filter);
            }
            assert(self.entries@.take(0) =~= Seq::<(i32, u64, V)>::empty());
            assert(self.entries@.skip(0) =~= all.skip(0));
        }
        while i < self.entries.len()
            invariant
                ttl == self.ttl_secs,
                self.ttl_secs == old(self).ttl_secs,
                self.max_entries == old(self).max_entries,
                all == old(self).entries@,
                all.len() == n0,
                keys_unique(all),
                i <= self.entries@.len(),
                j <= all.len(),
                self.entries@.len() - i == all.len() - j,
                self.entries@.take(i as int) == all.take(j as int).filter(fresh_at(now, ttl)),
                self.entries@.skip(i as int) == all.skip(j as int),
            decreases self.entries@.len() - i,
        {
            let ghost e = all[j as int];
            assert(self.entries@[i as int] == self.entries@.skip(i as int)[0]);
            assert(all.take(j as int + 1).drop_last() =~= all.take(j as int));
            assert(all.take(j as int + 1).last() == e);
            if is_fresh_exec(self.entries[i].1, now, ttl) {
                proof {
                    reveal(Seq::filter);
                    assert(self.entries@.take(i as int + 1) =~= self.entries@.take(i as int).push(e));
                    assert(self.entries@.skip(i as int + 1) =~= self.entries@.skip(i as int).drop_first());
                    assert(all.skip(j as int + 1) =~= all.skip(j as int).drop_first());
                }
                i = i + 1;
            } else {
                let ghost before = self.entries@;
                self.entries.remove(i);
                proof {
                    reveal(Seq::filter);
                    assert(self.entries@.take(i as int) =~= before.take(i as int));
                    assert(self.entries@.skip(i as int) =~= before.skip(i as int).drop_first());
                    assert(all.skip(j as int + 1) =~= all.skip(j as int).drop_first());
                }
            }
            j = j + 1;
        }
        proof {
            assert(self.entries@.take(i as int) =~= self.entries@);
            assert(j == all.len());
            assert(all.take(j as int) =~= all);
            assert forall|a: int, b: int| 0 <= a < b < self.entries@.len() implies #[trigger] self.entries@[a].0
                != #[trigger] self.entries@[b].0 by {
                let f = all.filter(fresh_at(now, ttl));
                all.lemma_filter_contains_rev(fresh_at(now, ttl), f[a]);
                all.lemma_filter_contains_rev(fresh_at(now, ttl), f[b]);
                lemma_filter_keeps_order(all, fresh_at(now, ttl), a, b);
            }
        }
    }

    /// The value cached under `key`, after dropping what is no longer fresh
    /// at `now`.
    pub fn get(&mut self, key: i32, now: u64) -> (r: Option<&V>)
        requires
            old(self).wf(),
        ensures
            final(self).wf(),
            final(self).ttl_secs == old(self).ttl_secs,
            final(self).max_entries == old(self).max_entries,
            final(self).entries@ == old(self).entries@.filter(fresh_at(now, old(self).ttl_secs)),
            match r {
                Some(v) => exists|i: int|
                    0 <= i < final(self).entries@.len() && final(self).entries@[i].0 == key
                        && final(self).entries@[i].2 == *v,
                None => !has_key(final(self).entries@, key),
            },
    {
        self.prune(now);
        let mut i: usize = 0;
        while i < self.entries.len()
            invariant
                self.wf(),
                self.ttl_secs == old(self).ttl_secs,
                self.max_entries == old(self).max_entries,
                self.entries@ == old(self).entries@.filter(fresh_at(now, old(self).ttl_secs)),
                i <= self.entries@.len(),
                forall|k: int| 0 <= k < i ==> #[trigger] self.entries@[k].0 != key,
            decreases self.entries@.len() - i,
        {
            if self.entries[i].0 == key {
                return Some(&self.entries[i].2);
            }
            i = i + 1;
        }
        None
    }

    /// Stores `value` under `key` at `now`, replacing an earlier value; a
    /// cache above its ceiling is emptied first.
    pub fn put(&mut self, key: i32, value: V, now: u64)
        requires
            old(self).wf(),
        ensures
            final(self).wf(),
            final(self).ttl_secs == old(self).ttl_secs,
            final(self).max_entries == old(self).max_entries,
            exists|i: int|
                0 <= i < final(self).entries@.len() && final(self).entries@[i] == (key, now, value),
            old(self).entries@.len() <= old(self).max_entries ==> {
                ||| (!has_key(old(self).entries@, key) && final(self).entries@ == old(self).entries@.push((key, now, value)))
                ||| exists|i: int|
                    0 <= i < old(self).entries@.len() && old(self).entries@[i].0 == key && final(self).entries@
                        == old(self).entries@.update(i, (key, now, value))
            },
            old(self).entries@.len() > old(self).max_entries ==> final(self).entries@ == seq![(key, now, value)],
    {
        if self.entries.len() > self.max_entries {
            self.entries.clear();
            self.entries.push((key, now, value));
            assert(self.entries@ =~= seq![(key, now, value)]);
            assert(self.entries@[0] == (key, now, value));
            return;
        }
        let ghost before = self.entries@;
        let mut i: usize = 0;
        while i < self.entries.len()
            invariant
                self.entries@ == before,
                before == old(self).entries@,
                before.len() <= old(self).max_entries,
                keys_unique(before),
                self.ttl_secs == old(self).ttl_secs,
                self.max_entries == old(self).max_entries,
                i <= self.entries@.len(),
                forall|k: int| 0 <= k < i ==> #[trigger] self.entries@[k].0 != key,
            decreases self.entries@.len() - i,
        {
            if self.entries[i].0 == key {
                self.entries.set(i, (key, now, value));
                proof {
                    assert(self.entries@[i as int] == (key, now, value));
                    assert(self.entries@ == before.update(i as int, (key, now, value)));
                }
                return;
            }
            i = i + 1;
        }
        self.entries.push((key, now, value));
        proof {
            let n = before.len() as int;
            assert(self.entries@[n] == (key, now, value));
            assert(!has_key(before, key));
        }
    }
}

/// Filtering keeps the relative order of what it keeps, and keeps it from
/// the source.
proof fn lemma_filter_keeps_order<V>(s: Seq<(i32, u64, V)>, p: spec_fn((i32, u64, V)) -> bool, a: int, b: int)
    requires
        keys_unique(s),
        0 <= a < b < s.filter(p).len(),
    ensures
        s.filter(p)[a].0 != s.filter(p)[b].0,
    decreases s.len(),
{
    reveal(Seq::filter);
    let rest = s.drop_last();
    assert(keys_unique(rest));
    rest.lemma_filter_len(p);
    if p(s.last()) {
        if b == s.filter(p).len() - 1 {
            assert(s.filter(p)[b] == s.last());
            assert(s.filter(p)[a] == rest.filter(p)[a]);
            rest.lemma_filter_contains_rev(p, rest.filter(p)[a]);
            let m = choose|m: int| 0 <= m < rest.len() && rest[m] == rest.filter(p)[a];
            assert(s[m] == rest[m]);
            assert(s[m].0 != s[s.len() - 1].0);
        } else {
            lemma_filter_keeps_order(rest, p, a, b);
        }
    } else {
        lemma_filter_keeps_order(rest, p, a, b);
    }
}

/// A value stored at `now` is found by a lookup at the same time, provided
/// entries live for some time.
pub proof fn lemma_put_then_get<V>(s: Seq<(i32, u64, V)>, key: i32, now: u64, ttl: u64, value: V)
    requires
        ttl > 0,
        keys_unique(s),
        exists|i: int| 0 <= i < s.len() && s[i] == (key, now, value),
    ensures
        exists|i: int|
            0 <= i < s.filter(fresh_at(now, ttl)).len() && s.filter(fresh_at(now, ttl))[i] == (key, now, value),
{
    let i = choose|i: int| 0 <= i < s.len() && s[i] == (key, now, value);
    s.lemma_filter_contains(fresh_at(now, ttl), i);
}

} // verus!
