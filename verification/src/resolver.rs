//! Resolution: picking the winning node among those whose pattern matches a
//! queried permission.
//!
//! The merged node sequence is scanned for matching patterns; the node with
//! the highest priority wins. Ownership is never a tiebreaker. When several
//! matching nodes share the maximal priority, the one earliest in the merged
//! sequence wins; since role-owned nodes stand before principal-owned nodes
//! in the merged sequence, an equal-priority tie between the two falls to the
//! role-owned node.

use vstd::prelude::*;

use crate::node::{NodeView, PermissionNode, PermissionResult};
use crate::pattern::pattern_matches;

verus! {

/// The views of a sequence of nodes.
pub open spec fn node_views(nodes: Seq<PermissionNode>) -> Seq<NodeView> {
    nodes.map_values(|n: PermissionNode| n@)
}

/// The index of the winning node of `nodes` for `target`: the first node
/// carrying the maximal priority among those whose pattern matches `target`,
/// or `None` when no pattern matches.
pub open spec fn best_match(nodes: Seq<NodeView>, target: Seq<char>) -> Option<int>
    decreases nodes.len(),
{
    if nodes.len() == 0 {
        None
    } else {
        let i = nodes.len() - 1;
        let prev = best_match(nodes.drop_last(), target);
        if pattern_matches(nodes[i].pattern, target) {
            match prev {
                Option::None => Some(i),
                Option::Some(b) => if nodes[i].priority > nodes[b].priority {
                    Some(i)
                } else {
                    Some(b)
                },
            }
        } else {
            prev
        }
    }
}

/// The decision for `target` over the merged node sequence `nodes`: `NotSet`
/// when nothing matches, otherwise `Allowed` or `Denied` after the winning
/// node's value.
pub open spec fn spec_evaluate(nodes: Seq<NodeView>, target: Seq<char>) -> PermissionResult {
    match best_match(nodes, target) {
        Option::None => PermissionResult::NotSet,
        Option::Some(i) => if nodes[i].value {
            PermissionResult::Allowed
        } else {
            PermissionResult::Denied
        },
    }
}

/// What the winner is: when `best_match` finds nothing, no node matches; when
/// it picks `i`, node `i` matches, no matching node has a higher priority,
/// and every matching node of equal priority stands at `i` or later. The
/// priority alone decides; position only breaks exact ties.
pub proof fn lemma_best_match_characterization(nodes: Seq<NodeView>, target: Seq<char>)
    ensures
        best_match(nodes, target) is None ==> forall|j: int|
            0 <= j < nodes.len() ==> !pattern_matches(nodes[j].pattern, target),
        best_match(nodes, target) matches Some(i) ==> {
            &&& 0 <= i < nodes.len()
            &&& pattern_matches(nodes[i].pattern, target)
            &&& forall|j: int|
                0 <= j < nodes.len() && pattern_matches(#[trigger] nodes[j].pattern, target)
                    ==> nodes[j].priority <= nodes[i].priority
            &&& forall|j: int|
                0 <= j < nodes.len() && pattern_matches(#[trigger] nodes[j].pattern, target)
                    && nodes[j].priority == nodes[i].priority ==> i <= j
        },
    decreases nodes.len(),
{
    if nodes.len() > 0 {
        lemma_best_match_characterization(nodes.drop_last(), target);
        assert(forall|j: int| 0 <= j < nodes.len() - 1 ==> nodes[j] == nodes.drop_last()[j]);
    }
}

/// The converse direction: where some node matches, `best_match` finds one.
pub proof fn lemma_best_match_some(nodes: Seq<NodeView>, target: Seq<char>, j: int)
    requires
        0 <= j < nodes.len(),
        pattern_matches(nodes[j].pattern, target),
    ensures
        best_match(nodes, target) is Some,
    decreases nodes.len(),
{
    if j < nodes.len() - 1 {
        lemma_best_match_some(nodes.drop_last(), target, j);
    }
}

/// Picks the decision for `target_permission` over the merged node list
/// `nodes`: the highest-priority node whose pattern matches decides, the
/// first such node on an exact priority tie; no match yields `NotSet`.
pub fn evaluate_permission(nodes: &Vec<PermissionNode>, target_permission: &str) -> (r:
    PermissionResult)
    ensures
        r == spec_evaluate(node_views(nodes@), target_permission@),
{
    let ghost views = node_views(nodes@);
    let mut best: Option<usize> = None;
    let mut i: usize = 0;
    while i < nodes.len()
        invariant
            0 <= i <= nodes@.len(),
            views == node_views(nodes@),
            views.len() == nodes@.len(),
            forall|j: int| 0 <= j < nodes@.len() ==> views[j] == nodes@[j]@,
            match best {
                Option::None => best_match(views.take(i as int), target_permission@) is None,
                Option::Some(b) => b < i && best_match(views.take(i as int), target_permission@)
                    == Some(b as int),
            },
        decreases nodes@.len() - i,
    {
        proof {
            assert(views.take(i + 1).drop_last() =~= views.take(i as int));
            assert(views.take(i + 1)[i as int] == nodes@[i as int]@);
        }
        if nodes[i].matches(target_permission) {
            match best {
                Option::None => {
                    best = Some(i);
                },
                Option::Some(b) => {
                    if nodes[i].priority > nodes[b].priority {
                        best = Some(i);
                    }
                },
            }
        }
        i += 1;
    }
    proof {
        assert(views.take(nodes@.len() as int) =~= views);
    }
    match best {
        Option::None => PermissionResult::NotSet,
        Option::Some(b) => {
            if nodes[b].value {
                PermissionResult::Allowed
            } else {
                PermissionResult::Denied
            }
        },
    }
}

/// The patterns of the allowing nodes among `nodes`.
pub open spec fn allowed_pattern_set(nodes: Seq<NodeView>) -> Set<Seq<char>> {
    Set::new(
        |p: Seq<char>|
            exists|i: int| 0 <= i < nodes.len() && (#[trigger] nodes[i]).value && nodes[i].pattern
                == p,
    )
}

/// Every pattern in `pats` belongs to some allowing node of `views`.
#[verifier::opaque]
pub open spec fn dedup_sound(pats: Seq<Seq<char>>, views: Seq<NodeView>) -> bool {
    forall|m: int|
        #![trigger pats[m]]
        0 <= m < pats.len() ==> exists|k: int|
            #![trigger views[k]]
            0 <= k < views.len() && views[k].value && views[k].pattern == pats[m]
}

/// The pattern of every allowing node among the first `bound` of `views`
/// stands in `pats`.
#[verifier::opaque]
pub open spec fn dedup_complete(pats: Seq<Seq<char>>, views: Seq<NodeView>, bound: int) -> bool {
    forall|k: int|
        #![trigger views[k]]
        0 <= k < bound && views[k].value ==> exists|m: int|
            #![trigger pats[m]]
            0 <= m < pats.len() && pats[m] == views[k].pattern
}

/// No two elements of `pats` are equal.
#[verifier::opaque]
pub open spec fn seqs_distinct(pats: Seq<Seq<char>>) -> bool {
    forall|m1: int, m2: int|
        #![trigger pats[m1], pats[m2]]
        0 <= m1 < m2 < pats.len() ==> pats[m1] != pats[m2]
}

proof fn lemma_dedup_empty(views: Seq<NodeView>)
    ensures
        dedup_sound(Seq::<Seq<char>>::empty(), views),
        dedup_complete(Seq::<Seq<char>>::empty(), views, 0),
        seqs_distinct(Seq::<Seq<char>>::empty()),
{
    reveal(dedup_sound);
    reveal(dedup_complete);
    reveal(seqs_distinct);
}

proof fn lemma_dedup_push(pats: Seq<Seq<char>>, views: Seq<NodeView>, i: int)
    requires
        0 <= i < views.len(),
        dedup_sound(pats, views),
        dedup_complete(pats, views, i),
        seqs_distinct(pats),
        views[i].value,
        forall|m: int| #![trigger pats[m]] 0 <= m < pats.len() ==> pats[m] != views[i].pattern,
    ensures
        dedup_sound(pats.push(views[i].pattern), views),
        dedup_complete(pats.push(views[i].pattern), views, i + 1),
        seqs_distinct(pats.push(views[i].pattern)),
{
    reveal(dedup_sound);
    reveal(dedup_complete);
    reveal(seqs_distinct);
    let cur = pats.push(views[i].pattern);
    assert forall|m: int| #![trigger cur[m]] 0 <= m < cur.len() implies exists|k: int|
        #![trigger views[k]]
        0 <= k < views.len() && views[k].value && views[k].pattern == cur[m] by {
        if m < pats.len() {
            assert(cur[m] == pats[m]);
            let k = choose|k: int|
                #![trigger views[k]]
                0 <= k < views.len() && views[k].value && views[k].pattern == pats[m];
            assert(0 <= k < views.len() && views[k].value && views[k].pattern == cur[m]);
        } else {
            assert(0 <= i < views.len() && views[i].value && views[i].pattern == cur[m]);
        }
    }
    assert forall|k: int| #![trigger views[k]] 0 <= k < i + 1 && views[k].value implies exists|
        m: int,
    |
        #![trigger cur[m]]
        0 <= m < cur.len() && cur[m] == views[k].pattern by {
        if k < i {
            let m = choose|m: int|
                #![trigger pats[m]]
                0 <= m < pats.len() && pats[m] == views[k].pattern;
            assert(cur[m] == pats[m]);
            assert(0 <= m < cur.len() && cur[m] == views[k].pattern);
        } else {
            let m = cur.len() - 1;
            assert(0 <= m < cur.len() && cur[m] == views[k].pattern);
        }
    }
    assert forall|m1: int, m2: int|
        #![trigger cur[m1], cur[m2]]
        0 <= m1 < m2 < cur.len() implies cur[m1] != cur[m2] by {
        assert(cur[m1] == pats[m1]);
        if m2 < pats.len() {
            assert(cur[m2] == pats[m2]);
        } else {
            assert(cur[m2] == views[i].pattern);
        }
    }
}

proof fn lemma_dedup_seen(pats: Seq<Seq<char>>, views: Seq<NodeView>, i: int)
    requires
        0 <= i < views.len(),
        dedup_complete(pats, views, i),
        views[i].value ==> exists|m: int|
            #![trigger pats[m]]
            0 <= m < pats.len() && pats[m] == views[i].pattern,
    ensures
        dedup_complete(pats, views, i + 1),
{
    reveal(dedup_complete);
}

proof fn lemma_dedup_set(pats: Seq<Seq<char>>, views: Seq<NodeView>)
    requires
        dedup_sound(pats, views),
        dedup_complete(pats, views, views.len() as int),
    ensures
        pats.to_set() == allowed_pattern_set(views),
{
    reveal(dedup_sound);
    reveal(dedup_complete);
    assert forall|p: Seq<char>|
        pats.to_set().contains(p) == allowed_pattern_set(views).contains(p) by {
        if pats.to_set().contains(p) {
            let m = choose|m: int| 0 <= m < pats.len() && pats[m] == p;
            assert(exists|k: int|
                0 <= k < views.len() && (#[trigger] views[k]).value && views[k].pattern == p);
            assert(allowed_pattern_set(views).contains(p));
        }
        if allowed_pattern_set(views).contains(p) {
            let k = choose|k: int|
                0 <= k < views.len() && (#[trigger] views[k]).value && views[k].pattern == p;
            let m = choose|m: int|
                #![trigger pats[m]]
                0 <= m < pats.len() && pats[m] == views[k].pattern;
            assert(pats[m] == p);
            assert(pats.to_set().contains(p));
        }
    }
    assert(pats.to_set() =~= allowed_pattern_set(views));
}

/// Collects the pattern of every allowing node, each pattern once, in
/// first-occurrence order; wildcard patterns are kept literally, never
/// expanded.
pub fn allowed_patterns_dedup(nodes: &Vec<PermissionNode>) -> (list: Vec<String>)
    ensures
        list@.map_values(|s: String| s@).to_set() == allowed_pattern_set(node_views(nodes@)),
        forall|m1: int, m2: int| 0 <= m1 < m2 < list@.len() ==> list@[m1]@ != list@[m2]@,
{
    let ghost views = node_views(nodes@);
    let mut list: Vec<String> = Vec::new();
    proof {
        lemma_dedup_empty(views);
        assert(list@.map_values(|s: String| s@) =~= Seq::<Seq<char>>::empty());
    }
    let mut i: usize = 0;
    while i < nodes.len()
        invariant
            0 <= i <= nodes@.len(),
            views == node_views(nodes@),
            views.len() == nodes@.len(),
            forall|j: int| 0 <= j < nodes@.len() ==> views[j] == (#[trigger] nodes@[j])@,
            dedup_sound(list@.map_values(|s: String| s@), views),
            dedup_complete(list@.map_values(|s: String| s@), views, i as int),
            seqs_distinct(list@.map_values(|s: String| s@)),
        decreases nodes@.len() - i,
    {
        let ghost pats = list@.map_values(|s: String| s@);
        if nodes[i].value {
            if !crate::text::string_list_contains(&list, nodes[i].permission.as_str()) {
                proof {
                    assert forall|m: int| #![trigger pats[m]] 0 <= m < pats.len() implies pats[m]
                        != views[i as int].pattern by {
                        assert(list@[m]@ != nodes@[i as int].permission@);
                    }
                    lemma_dedup_push(pats, views, i as int);
                }
                list.push(nodes[i].permission.clone());
                proof {
                    assert(list@.map_values(|s: String| s@) =~= pats.push(
                        views[i as int].pattern,
                    ));
                }
            } else {
                proof {
                    let m = choose|m: int|
                        0 <= m < list@.len() && (#[trigger] list@[m])@ == nodes@[
                            i as int].permission@;
                    assert(pats[m] == views[i as int].pattern);
                    lemma_dedup_seen(pats, views, i as int);
                }
            }
        } else {
            proof {
                assert(!views[i as int].value);
                lemma_dedup_seen(pats, views, i as int);
            }
        }
        i += 1;
    }
    proof {
        lemma_dedup_set(list@.map_values(|s: String| s@), views);
        reveal(seqs_distinct);
        assert forall|m1: int, m2: int| 0 <= m1 < m2 < list@.len() implies list@[m1]@ != list@[
            m2]@ by {
            let pats = list@.map_values(|s: String| s@);
            assert(pats[m1] == list@[m1]@ && pats[m2] == list@[m2]@);
            assert(pats[m1] != pats[m2]);
        }
    }
    list
}

/// Law: on an exact priority tie among matching nodes, the node standing
/// earlier in the merged sequence wins, never the later one. Role-owned
/// nodes stand before principal-owned nodes in the merged sequence, so an
/// equal-priority tie between the two falls to the role-owned node; the rule
/// is deterministic, since `best_match` is a function of the sequence.
pub proof fn lemma_tie_breaks_to_earlier(nodes: Seq<NodeView>, target: Seq<char>, i: int, j: int)
    requires
        0 <= i < j < nodes.len(),
        pattern_matches(nodes[i].pattern, target),
        pattern_matches(nodes[j].pattern, target),
        nodes[i].priority == nodes[j].priority,
    ensures
        best_match(nodes, target) != Some(j),
{
    lemma_best_match_characterization(nodes, target);
    lemma_best_match_some(nodes, target, i);
    if best_match(nodes, target) == Some(j) {
        assert(nodes[i].priority == nodes[j].priority);
        assert(j <= i);
    }
}

/// Law: where no node's pattern matches the permission, the decision is
/// `NotSet`.
pub proof fn lemma_no_match_not_set(nodes: Seq<NodeView>, target: Seq<char>)
    requires
        forall|k: int|
            0 <= k < nodes.len() ==> !pattern_matches((#[trigger] nodes[k]).pattern, target),
    ensures
        spec_evaluate(nodes, target) == PermissionResult::NotSet,
{
    lemma_best_match_characterization(nodes, target);
    if best_match(nodes, target) is Some {
        let i = best_match(nodes, target).unwrap();
        assert(pattern_matches(nodes[i].pattern, target));
    }
}

} // verus!
