//! The walk from an anime search hit to the entry of a requested season:
//! back along prequel edges to the first season, then forward along sequel
//! edges. Each step asks the caller for an entry's relations.
use vstd::prelude::*;
use crate::relations::{RelationsPayload, pick_relation_id, pick_best_sequel_id, relation_id_spec, best_sequel_ok, prequel_word};
use crate::text::string_of;

verus! {

#[derive(Clone, Copy, Debug, PartialEq, Eq, Structural)]
pub enum WalkPhase {
    /// Following prequels back to the first season.
    Base,
    /// Following sequels forward to the requested season.
    Forward,
    Done,
}

/// What the walk needs next, or its outcome.
#[derive(Clone, Copy, Debug, PartialEq, Eq, Structural)]
pub enum WalkStep {
    /// The relations of this entry are needed.
    Fetch(i32),
    Found(i32),
    /// A fetch failed, or a required sequel is missing.
    Failed,
}

#[derive(Clone, Debug)]
pub struct SeasonWalk {
    pub phase: WalkPhase,
    pub current: i32,
    /// Entries visited in the current phase, which stops a cycle.
    pub seen: Vec<i32>,
    /// Sequel hops still to make.
    pub steps_left: i32,
    pub season: i32,
}

/// The season asked for: 1 when none is given or it is below 1.
pub open spec fn season_or_first(season: Option<i32>) -> i32 {
    match season {
        Some(s) => if s < 1 {
            1
        } else {
            s
        },
        None => 1,
    }
}

fn contains_id(v: &Vec<i32>, id: i32) -> (r: bool)
    ensures
        r == v@.contains(id),
{
    let mut i: usize = 0;
    while i < v.len()
        invariant
            i <= v@.len(),
            forall|k: int| 0 <= k < i ==> v@[k] != id,
        decreases v@.len() - i,
    {
        if v[i] == id {
            return true;
        }
        i = i + 1;
    }
    false
}

impl SeasonWalk {
    /// A walk in the forward phase has a hop left to make.
    pub open spec fn wf(&self) -> bool {
        self.phase == WalkPhase::Forward ==> self.steps_left >= 1
    }

    /// The step of the forward phase at entry `current` with `steps_left`
    /// hops to make, having visited `seen`: done when no hop is left or the
    /// entry was visited, else its relations are needed.
    pub open spec fn forward_ok(current: i32, steps_left: i32, seen: Seq<i32>, season: i32, post: SeasonWalk, r: WalkStep) -> bool {
        &&& post.current == current && post.season == season && post.steps_left == steps_left
        &&& if steps_left <= 0 || seen.contains(current) {
            post.phase == WalkPhase::Done && r == WalkStep::Found(current)
        } else {
            post.phase == WalkPhase::Forward && post.seen@ == seen.push(current) && r == WalkStep::Fetch(current)
        }
    }

    fn forward_step(&mut self) -> (r: WalkStep)
        ensures
            SeasonWalk::forward_ok(old(self).current, old(self).steps_left, old(self).seen@, old(self).season, *final(self), r),
    {
        if self.steps_left <= 0 || contains_id(&self.seen, self.current) {
            self.phase = WalkPhase::Done;
            return WalkStep::Found(self.current);
        }
        self.phase = WalkPhase::Forward;
        self.seen.push(self.current);
        WalkStep::Fetch(self.current)
    }

    /// The start of the forward phase from the first-season entry `base`:
    /// `season - 1` sequel hops, none for the first season.
    pub open spec fn begin_forward_ok(season: i32, base: i32, post: SeasonWalk, r: WalkStep) -> bool {
        if season <= 1 {
            post.phase == WalkPhase::Done && r == WalkStep::Found(base) && post.season == season
        } else {
            SeasonWalk::forward_ok(base, (season - 1) as i32, Seq::empty(), season, post, r)
        }
    }

    fn begin_forward(&mut self, base: i32) -> (r: WalkStep)
        ensures
            SeasonWalk::begin_forward_ok(old(self).season, base, *final(self), r),
    {
        if self.season <= 1 {
            self.phase = WalkPhase::Done;
            self.current = base;
            return WalkStep::Found(base);
        }
        self.current = base;
        self.seen = Vec::new();
        self.steps_left = self.season - 1;
        self.forward_step()
    }

    /// One step of the walk from `pre`, given the relations of the entry last
    /// asked for (`None` when fetching them failed).
    pub open spec fn step_ok(pre: SeasonWalk, relations: Option<RelationsPayload>, post: SeasonWalk, r: WalkStep) -> bool {
        match relations {
            None => r == WalkStep::Failed && post.phase == WalkPhase::Done,
            Some(rel) => if pre.phase == WalkPhase::Base {
                match relation_id_spec(rel.edges@, prequel_word()) {
                    Some(prev) => if pre.seen@.contains(prev) {
                        SeasonWalk::begin_forward_ok(pre.season, prev, post, r)
                    } else {
                        post.phase == WalkPhase::Base && post.current == prev && post.seen@ == pre.seen@.push(prev)
                            && r == WalkStep::Fetch(prev)
                    },
                    None => SeasonWalk::begin_forward_ok(pre.season, pre.current, post, r),
                }
            } else {
                exists|next: Option<i32>| best_sequel_ok(rel, next) && match next {
                    None => r == WalkStep::Failed && post.phase == WalkPhase::Done,
                    Some(s) => SeasonWalk::forward_ok(s, (pre.steps_left - 1) as i32, pre.seen@, pre.season, post, r),
                }
            },
        }
    }

    /// Starts a walk from the search hit `start` for `season`.
    pub fn new(start: i32, season: Option<i32>) -> (r: (SeasonWalk, WalkStep))
        ensures
            r.0.wf(),
            r.0.phase == WalkPhase::Base,
            r.0.current == start,
            r.0.seen@ == seq![start],
            r.0.season == season_or_first(season),
            r.1 == WalkStep::Fetch(start),
    {
        let s = match season {
            Some(s) => if s < 1 {
                1
            } else {
                s
            },
            None => 1,
        };
        let mut seen: Vec<i32> = Vec::new();
        seen.push(start);
        assert(seen@ =~= seq![start]);
        (SeasonWalk { phase: WalkPhase::Base, current: start, seen, steps_left: 0, season: s }, WalkStep::Fetch(start))
    }

    /// Continues with the relations of the entry last asked for, or `None`
    /// when fetching them failed.
    pub fn on_relations(&mut self, relations: Option<&RelationsPayload>) -> (r: WalkStep)
        requires
            old(self).wf(),
            old(self).phase != WalkPhase::Done,
        ensures
            final(self).wf(),
            final(self).season == old(self).season,
            SeasonWalk::step_ok(
                *old(self),
                match relations {
                    Some(rel) => Some(*rel),
                    None => None,
                },
                *final(self),
                r,
            ),
    {
        let rel = match relations {
            None => {
                self.phase = WalkPhase::Done;
                return WalkStep::Failed;
            },
            Some(rel) => rel,
        };
        if self.phase == WalkPhase::Base {
            let prequel = string_of(&['P', 'R', 'E', 'Q', 'U', 'E', 'L']);
            assert(prequel@ =~= prequel_word());
            match pick_relation_id(rel, prequel.as_str()) {
                Some(prev) => {
                    if contains_id(&self.seen, prev) {
                        self.begin_forward(prev)
                    } else {
                        self.seen.push(prev);
                        self.current = prev;
                        WalkStep::Fetch(prev)
                    }
                },
                None => {
                    let base = self.current;
                    self.begin_forward(base)
                },
            }
        } else {
            let next = pick_best_sequel_id(rel);
            match next {
                None => {
                    self.phase = WalkPhase::Done;
                    WalkStep::Failed
                },
                Some(s) => {
                    self.current = s;
                    self.steps_left = self.steps_left - 1;
                    self.forward_step()
                },
            }
        }
    }
}

/// Asking for season 2 from an entry without a prequel: the walk fetches
/// that entry's relations, then settles on the sequel that
/// `best_sequel_ok` chooses among them (the earliest that starts after the
/// entry, else the earliest of all), or fails when there is none.
pub proof fn lemma_second_season_is_best_sequel(
    w0: SeasonWalk,
    rel: RelationsPayload,
    w1: SeasonWalk,
    r1: WalkStep,
    w2: SeasonWalk,
    r2: WalkStep,
)
    requires
        w0.phase == WalkPhase::Base,
        w0.season == 2,
        relation_id_spec(rel.edges@, prequel_word()) is None,
        SeasonWalk::step_ok(w0, Some(rel), w1, r1),
        SeasonWalk::step_ok(w1, Some(rel), w2, r2),
    ensures
        r1 == WalkStep::Fetch(w0.current),
        exists|next: Option<i32>|
            best_sequel_ok(rel, next) && match next {
                None => r2 == WalkStep::Failed,
                Some(s) => r2 == WalkStep::Found(s),
            },
{
    assert(!Seq::<i32>::empty().contains(w0.current));
    assert(w1.phase == WalkPhase::Forward && w1.steps_left == 1);
    let next = choose|next: Option<i32>| best_sequel_ok(rel, next) && match next {
        None => r2 == WalkStep::Failed && w2.phase == WalkPhase::Done,
        Some(s) => SeasonWalk::forward_ok(s, (w1.steps_left - 1) as i32, w1.seen@, w1.season, w2, r2),
    };
    assert(best_sequel_ok(rel, next));
}

} // verus!
