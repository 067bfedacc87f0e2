//! Dot-segmented permission patterns and their matching semantics.
//!
//! A pattern and a target permission are both split on `.`; the pattern
//! matches the target exactly when the two segment sequences have the same
//! length and every pattern segment is either the literal target segment or
//! the one-segment wildcard `*`. A wildcard consumes exactly one segment,
//! never a variable-length suffix: `class.*` matches `class.view` but not
//! `class.view.detail` or `class`.

use vstd::prelude::*;

use crate::text::{split_chars, split_on_char};

verus! {

/// A single pattern segment matches a target segment when it is the
/// one-character wildcard segment `*` or the identical literal.
pub open spec fn seg_matches(pseg: Seq<char>, tseg: Seq<char>) -> bool {
    pseg == seq!['*'] || pseg == tseg
}

/// The pattern `pattern` matches the permission `target`: equal segment
/// counts, and segments match pairwise in order.
pub open spec fn pattern_matches(pattern: Seq<char>, target: Seq<char>) -> bool {
    let ps = split_chars(pattern, '.');
    let ts = split_chars(target, '.');
    &&& ps.len() == ts.len()
    &&& forall|i: int| 0 <= i < ps.len() ==> seg_matches(ps[i], ts[i])
}

/// Every pattern matches itself: each segment equals itself, so the pairwise
/// check succeeds at every position.
pub proof fn lemma_matches_reflexive(p: Seq<char>)
    ensures
        pattern_matches(p, p),
{
}

/// Matching is exactly the segment-wise characterization: equal segment
/// counts with each pattern segment literal-equal to the target segment or
/// the wildcard `*`; unequal segment counts never match, whatever wildcards
/// the pattern holds.
pub proof fn lemma_matches_characterization(pattern: Seq<char>, target: Seq<char>)
    ensures
        pattern_matches(pattern, target) <==> (split_chars(pattern, '.').len() == split_chars(
            target,
            '.',
        ).len() && (forall|i: int|
            0 <= i < split_chars(pattern, '.').len() ==> seg_matches(
                split_chars(pattern, '.')[i],
                split_chars(target, '.')[i],
            ))),
        split_chars(pattern, '.').len() != split_chars(target, '.').len() ==> !pattern_matches(
            pattern,
            target,
        ),
{
}

/// Compares two character vectors for equality of their contents.
fn chars_eq(a: &Vec<char>, b: &Vec<char>) -> (r: bool)
    ensures
        r == (a@ == b@),
{
    if a.len() != b.len() {
        return false;
    }
    let mut i: usize = 0;
    while i < a.len()
        invariant
            0 <= i <= a@.len(),
            a@.len() == b@.len(),
            forall|j: int| 0 <= j < i ==> a@[j] == b@[j],
        decreases a@.len() - i,
    {
        if a[i] != b[i] {
            return false;
        }
        i += 1;
    }
    proof {
        assert(a@ =~= b@);
    }
    true
}

/// Decides whether one pattern segment matches one target segment.
fn seg_matches_exec(pseg: &Vec<char>, tseg: &Vec<char>) -> (r: bool)
    ensures
        r == seg_matches(pseg@, tseg@),
{
    if pseg.len() == 1 && pseg[0] == '*' {
        proof {
            assert(pseg@ =~= seq!['*']);
        }
        return true;
    }
    proof {
        assert(pseg@ != seq!['*']);
    }
    chars_eq(pseg, tseg)
}

/// Decides whether `pattern` matches `target`: both are split on `.`, the
/// segment counts must be equal, and each pattern segment must be the literal
/// target segment or the one-segment wildcard `*`.
pub fn matches(pattern: &str, target: &str) -> (r: bool)
    ensures
        r == pattern_matches(pattern@, target@),
{
    let ps = split_on_char(pattern, '.');
    let ts = split_on_char(target, '.');
    if ps.len() != ts.len() {
        return false;
    }
    let mut i: usize = 0;
    while i < ps.len()
        invariant
            0 <= i <= ps@.len(),
            ps@.len() == ts@.len(),
            ps@.map_values(|seg: Vec<char>| seg@) == split_chars(pattern@, '.'),
            ts@.map_values(|seg: Vec<char>| seg@) == split_chars(target@, '.'),
            forall|j: int|
                0 <= j < i ==> seg_matches(
                    split_chars(pattern@, '.')[j],
                    split_chars(target@, '.')[j],
                ),
        decreases ps@.len() - i,
    {
        if !seg_matches_exec(&ps[i], &ts[i]) {
            proof {
                assert(ps@.map_values(|seg: Vec<char>| seg@)[i as int] == ps@[i as int]@);
                assert(ts@.map_values(|seg: Vec<char>| seg@)[i as int] == ts@[i as int]@);
            }
            return false;
        }
        proof {
            assert(ps@.map_values(|seg: Vec<char>| seg@)[i as int] == ps@[i as int]@);
            assert(ts@.map_values(|seg: Vec<char>| seg@)[i as int] == ts@[i as int]@);
        }
        i += 1;
    }
    true
}

} // verus!
