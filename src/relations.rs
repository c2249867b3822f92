//! Anime catalog relations: choosing the prequel and the sequel of an entry,
//! and the walk from a search hit to the entry of the requested season.
use vstd::prelude::*;
use crate::text::{chars_of, chars_eq};

verus! {

/// A date that may lack its month or day, or be unknown.
#[derive(Clone, Copy, Debug, PartialEq, Eq, Structural)]
pub struct FuzzyDate {
    pub year: Option<i32>,
    pub month: Option<i32>,
    pub day: Option<i32>,
}

/// The sort key of a date: `year * 10000 + month * 100 + day`, a missing
/// month or day counting as 1; none without a year.
pub open spec fn date_key_spec(d: FuzzyDate) -> Option<i64> {
    match d.year {
        None => None,
        Some(y) => {
            let m: int = match d.month {
                Some(m) => m as int,
                None => 1,
            };
            let dd: int = match d.day {
                Some(x) => x as int,
                None => 1,
            };
            Some((y * 10000 + m * 100 + dd) as i64)
        },
    }
}

pub fn date_key(d: &FuzzyDate) -> (r: Option<i64>)
    ensures
        r == date_key_spec(*d),
{
    let y = match d.year {
        None => return None,
        Some(y) => y as i64,
    };
    let m: i64 = match d.month {
        Some(m) => m as i64,
        None => 1,
    };
    let dd: i64 = match d.day {
        Some(x) => x as i64,
        None => 1,
    };
    Some(y * 10000 + m * 100 + dd)
}

#[derive(Clone, Copy, Debug, PartialEq, Eq, Structural)]
pub struct RelationNode {
    pub id: i32,
    pub start_date: Option<FuzzyDate>,
}

#[derive(Clone, Debug)]
pub struct RelationEdge {
    pub relation_type: Option<String>,
    pub node: Option<RelationNode>,
}

/// An entry's start date and its relation edges.
#[derive(Clone, Debug)]
pub struct RelationsPayload {
    pub start_date: Option<FuzzyDate>,
    pub edges: Vec<RelationEdge>,
}

pub open spec fn is_rel(e: RelationEdge, rel: Seq<char>) -> bool {
    match e.relation_type {
        Some(t) => t@ == rel,
        None => false,
    }
}

fn edge_is(e: &RelationEdge, rel: &Vec<char>) -> (r: bool)
    ensures
        r == is_rel(*e, rel@),
{
    match &e.relation_type {
        Some(t) => {
            let cs = chars_of(t.as_str());
            chars_eq(cs.as_slice(), rel.as_slice())
        },
        None => false,
    }
}

/// The id of the node of the first edge of kind `rel` (none if that edge
/// has no node).
pub open spec fn relation_id_spec(edges: Seq<RelationEdge>, rel: Seq<char>) -> Option<i32> {
    if exists|i: int| 0 <= i < edges.len() && is_rel(#[trigger] edges[i], rel) {
        let i = choose|i: int|
            0 <= i < edges.len() && is_rel(#[trigger] edges[i], rel) && forall|k: int|
                0 <= k < i ==> !is_rel(#[trigger] edges[k], rel);
        match edges[i].node {
            Some(n) => Some(n.id),
            None => None,
        }
    } else {
        None
    }
}

pub fn pick_relation_id(relations: &RelationsPayload, rel: &str) -> (r: Option<i32>)
    ensures
        r == relation_id_spec(relations.edges@, rel@),
{
    let want = chars_of(rel);
    let mut i: usize = 0;
    while i < relations.edges.len()
        invariant
            i <= relations.edges@.len(),
            want@ == rel@,
            forall|k: int| 0 <= k < i ==> !is_rel(#[trigger] relations.edges@[k], rel@),
        decreases relations.edges@.len() - i,
    {
        if edge_is(&relations.edges[i], &want) {
            let ghost edges = relations.edges@;
            proof {
                let j = choose|j: int|
                    0 <= j < edges.len() && is_rel(#[trigger] edges[j], rel@) && forall|k: int|
                        0 <= k < j ==> !is_rel(#[trigger] edges[k], rel@);
                if j < i {
                } else if j > i {
                    assert(!is_rel(edges[i as int], rel@));
                }
                assert(j == i);
            }
            return match &relations.edges[i].node {
                Some(n) => Some(n.id),
                None => None,
            };
        }
        i = i + 1;
    }
    None
}

pub open spec fn sequel_word() -> Seq<char> {
    seq!['S', 'E', 'Q', 'U', 'E', 'L']
}

pub open spec fn prequel_word() -> Seq<char> {
    seq!['P', 'R', 'E', 'Q', 'U', 'E', 'L']
}

/// The nodes of the sequel edges that have one, in order.
pub open spec fn sequel_nodes(edges: Seq<RelationEdge>) -> Seq<RelationNode>
    decreases edges.len(),
{
    if edges.len() == 0 {
        Seq::empty()
    } else {
        let rest = sequel_nodes(edges.drop_last());
        let e = edges.last();
        if is_rel(e, sequel_word()) && e.node is Some {
            rest.push(e.node->0)
        } else {
            rest
        }
    }
}

/// The sort key of a node: its start date's, or the largest key when it has
/// none.
pub open spec fn node_key(n: RelationNode) -> i64 {
    match n.start_date {
        Some(d) => match date_key_spec(d) {
            Some(k) => k,
            None => i64::MAX,
        },
        None => i64::MAX,
    }
}

/// Node `j` has the smallest key among the nodes above `floor` (all nodes
/// when `floor` is none), and is the first with that key.
pub open spec fn first_min_above(ns: Seq<RelationNode>, j: int, floor: Option<i64>) -> bool {
    &&& 0 <= j < ns.len()
    &&& above(ns[j], floor)
    &&& forall|k: int| 0 <= k < ns.len() && above(#[trigger] ns[k], floor) ==> node_key(ns[j]) <= node_key(ns[k])
    &&& forall|k: int| 0 <= k < j && above(#[trigger] ns[k], floor) ==> node_key(ns[k]) > node_key(ns[j])
}

pub open spec fn above(n: RelationNode, floor: Option<i64>) -> bool {
    match floor {
        Some(f) => node_key(n) > f,
        None => true,
    }
}

/// The floor for choosing a sequel: the current entry's start key.
pub open spec fn current_key(r: RelationsPayload) -> Option<i64> {
    match r.start_date {
        Some(d) => date_key_spec(d),
        None => None,
    }
}

pub open spec fn any_above(ns: Seq<RelationNode>, floor: Option<i64>) -> bool {
    exists|k: int| 0 <= k < ns.len() && above(#[trigger] ns[k], floor)
}

/// The sequel to follow: among the sequels that start after the current
/// entry, the earliest; if none does (or the current entry has no date),
/// the earliest sequel overall; ties go to the first listed.
pub open spec fn best_sequel_ok(relations: RelationsPayload, r: Option<i32>) -> bool {
    let ns = sequel_nodes(relations.edges@);
    let cur = current_key(relations);
    if ns.len() == 0 {
        r is None
    } else if cur is Some && any_above(ns, cur) {
        exists|j: int| first_min_above(ns, j, cur) && r == Some(ns[j].id)
    } else {
        exists|j: int| first_min_above(ns, j, None) && r == Some(ns[j].id)
    }
}

fn node_key_of(n: &RelationNode) -> (r: i64)
    ensures
        r == node_key(*n),
{
    match &n.start_date {
        Some(d) => match date_key(d) {
            Some(k) => k,
            None => i64::MAX,
        },
        None => i64::MAX,
    }
}

/// The sequel nodes of `edges`.
pub fn sequels_of(edges: &Vec<RelationEdge>) -> (r: Vec<RelationNode>)
    ensures
        r@ == sequel_nodes(edges@),
{
    let want: Vec<char> = vec!['S', 'E', 'Q', 'U', 'E', 'L'];
    assert(want@ =~= sequel_word());
    let mut out: Vec<RelationNode> = Vec::new();
    let mut i: usize = 0;
    while i < edges.len()
        invariant
            i <= edges@.len(),
            want@ == sequel_word(),
            out@ == sequel_nodes(edges@.take(i as int)),
        decreases edges@.len() - i,
    {
        assert(edges@.take(i as int + 1).drop_last() =~= edges@.take(i as int));
        assert(edges@.take(i as int + 1).last() == edges@[i as int]);
        if edge_is(&edges[i], &want) {
            match &edges[i].node {
                Some(n) => out.push(*n),
                None => {},
            }
        }
        i = i + 1;
    }
    assert(edges@.take(edges@.len() as int) =~= edges@);
    out
}

/// The first node with the smallest key above `floor`, if any is above it.
fn first_min(ns: &Vec<RelationNode>, floor: Option<i64>) -> (r: Option<usize>)
    ensures
        match r {
            Some(j) => first_min_above(ns@, j as int, floor),
            None => !any_above(ns@, floor),
        },
{
    let mut best: Option<usize> = None;
    let mut best_key: i64 = 0;
    let mut i: usize = 0;
    while i < ns.len()
        invariant
            i <= ns@.len(),
            match best {
                Some(j) => j < i && best_key == node_key(ns@[j as int]) && above(ns@[j as int], floor)
                    && (forall|k: int| 0 <= k < i && above(#[trigger] ns@[k], floor) ==> best_key <= node_key(ns@[k]))
                    && (forall|k: int| 0 <= k < j && above(#[trigger] ns@[k], floor) ==> node_key(ns@[k]) > best_key),
                None => forall|k: int| 0 <= k < i ==> !above(#[trigger] ns@[k], floor),
            },
        decreases ns@.len() - i,
    {
        let k = node_key_of(&ns[i]);
        let ok = match floor {
            Some(f) => k > f,
            None => true,
        };
        if ok {
            match best {
                None => {
                    best = Some(i);
                    best_key = k;
                },
                Some(_) => {
                    if k < best_key {
                        best = Some(i);
                        best_key = k;
                    }
                },
            }
        }
        i = i + 1;
    }
    best
}

/// Picks the sequel to follow from an entry's relations.
pub fn pick_best_sequel_id(relations: &RelationsPayload) -> (r: Option<i32>)
    ensures
        best_sequel_ok(*relations, r),
{
    let ns = sequels_of(&relations.edges);
    if ns.len() == 0 {
        return None;
    }
    let cur = match &relations.start_date {
        Some(d) => date_key(d),
        None => None,
    };
    if cur.is_some() {
        match first_min(&ns, cur) {
            Some(j) => return Some(ns[j].id),
            None => {},
        }
    }
    match first_min(&ns, None) {
        Some(j) => Some(ns[j].id),
        None => {
            assert(above(ns@[0], None));
            None
        },
    }
}

/// The sequel chosen never starts before another sequel that also starts
/// after the current entry; without such a sequel, none starts before it.
pub proof fn lemma_best_sequel_is_earliest_after(relations: RelationsPayload, r: Option<i32>, other: int)
    requires
        best_sequel_ok(relations, r),
        0 <= other < sequel_nodes(relations.edges@).len(),
    ensures
        exists|j: int|
            0 <= j < sequel_nodes(relations.edges@).len() && r == Some(sequel_nodes(relations.edges@)[j].id) && (
            if current_key(relations) is Some && any_above(sequel_nodes(relations.edges@), current_key(relations)) {
                above(sequel_nodes(relations.edges@)[j], current_key(relations)) && (above(
                    sequel_nodes(relations.edges@)[other],
                    current_key(relations),
                ) ==> node_key(sequel_nodes(relations.edges@)[j]) <= node_key(sequel_nodes(relations.edges@)[other]))
            } else {
                node_key(sequel_nodes(relations.edges@)[j]) <= node_key(sequel_nodes(relations.edges@)[other])
            }),
{
    let ns = sequel_nodes(relations.edges@);
    let cur = current_key(relations);
    if cur is Some && any_above(ns, cur) {
        let j = choose|j: int| first_min_above(ns, j, cur) && r == Some(ns[j].id);
        assert(above(ns[j], cur));
    } else {
        let j = choose|j: int| first_min_above(ns, j, None) && r == Some(ns[j].id);
        assert(above(ns[other], None));
    }
}

} // verus!
