//! Resource-scoped grant provisioning.
//!
//! When a resource-ownership relation changes (a class gets a new homeroom
//! teacher), a fixed set of resource-scoped permission patterns is derived
//! from the resource id and written as principal-owned allowing nodes at an
//! elevated priority, high enough to outrank ordinary role-level decisions;
//! on the way out the same set is deleted again. The grant-to-new and
//! revoke-from-old halves of a reassignment are two independent idempotent
//! command sequences in a fixed order — grant first, then revoke — and one
//! half failing never rolls the other back.

use vstd::prelude::*;

use crate::manager::{AuthError, PermissionManager};
use crate::node::{NodeView, PermissionNode, PermissionResult};
use crate::pattern::{lemma_matches_reflexive, pattern_matches};
use crate::resolver::{
    best_match, lemma_best_match_characterization, lemma_best_match_some, spec_evaluate,
};
use crate::store::{
    key_faulted, keys_unique, lemma_nodes_for_owner_members, lemma_upsert_effect,
    lemma_upsert_idempotent, listed_node, nodes_for_owner, row_has_key, row_with_node, spec_remove,
    spec_upsert, KeyView, RowView,
};

verus! {

/// The priority of synthesized scoped grants: above ordinary role-level
/// priorities, so a scoped grant outranks them for its literal pattern.
pub const SCOPED_GRANT_PRIORITY: i32 = 20;

/// The resource id with every `-` separator stripped.
pub open spec fn spec_strip_dashes(s: Seq<char>) -> Seq<char> {
    s.filter(|c: char| c != '-')
}

/// The scoped suffix of a resource id: its canonical text with separators
/// stripped, then the last six characters (all of them when fewer).
pub open spec fn spec_scoped_suffix(id: Seq<char>) -> Seq<char> {
    let stripped = spec_strip_dashes(id);
    if stripped.len() <= 6 {
        stripped
    } else {
        stripped.skip(stripped.len() - 6)
    }
}

/// The fixed list of resource-scoped patterns for one suffix: the general
/// management pattern of the resource and the view/create/update/delete,
/// member-update and score-update patterns of its sub-entities.
pub open spec fn scoped_pattern_list(suffix: Seq<char>) -> Seq<Seq<char>> {
    seq![
        "class."@ + suffix,
        "group.view."@ + suffix,
        "group.create."@ + suffix,
        "group.update."@ + suffix,
        "group.delete."@ + suffix,
        "group.update.member."@ + suffix,
        "group.update.score."@ + suffix,
    ]
}

/// Derives the scoped suffix of `resource_id`: separators stripped, last six
/// characters kept.
pub fn scoped_suffix(resource_id: &str) -> (r: String)
    ensures
        r@ == spec_scoped_suffix(resource_id@),
{
    let n = resource_id.unicode_len();
    let mut kept: Vec<char> = Vec::new();
    proof {
        reveal(Seq::filter);
        assert(resource_id@.take(0) =~= Seq::<char>::empty());
        assert(kept@ =~= spec_strip_dashes(resource_id@.take(0)));
    }
    let mut i: usize = 0;
    while i < n
        invariant
            0 <= i <= n,
            n == resource_id@.len(),
            kept@ == spec_strip_dashes(resource_id@.take(i as int)),
        decreases n - i,
    {
        let c = resource_id.get_char(i);
        proof {
            reveal(Seq::filter);
            assert(resource_id@.take(i + 1).drop_last() =~= resource_id@.take(i as int));
            assert(resource_id@.take(i + 1).last() == c);
        }
        if c != '-' {
            kept.push(c);
        }
        proof {
            reveal(Seq::filter);
            assert(kept@ =~= spec_strip_dashes(resource_id@.take(i + 1)));
        }
        i += 1;
    }
    proof {
        assert(resource_id@.take(n as int) =~= resource_id@);
    }
    let start: usize = if kept.len() > 6 {
        kept.len() - 6
    } else {
        0
    };
    let mut suffix: Vec<char> = Vec::new();
    let mut j: usize = start;
    proof {
        assert(suffix@ =~= kept@.subrange(start as int, start as int));
    }
    while j < kept.len()
        invariant
            start <= j <= kept@.len(),
            suffix@ == kept@.subrange(start as int, j as int),
        decreases kept@.len() - j,
    {
        suffix.push(kept[j]);
        proof {
            assert(suffix@ =~= kept@.subrange(start as int, j + 1));
        }
        j += 1;
    }
    proof {
        if kept@.len() <= 6 {
            assert(kept@.subrange(0, kept@.len() as int) =~= kept@);
        } else {
            assert(kept@.subrange(start as int, kept@.len() as int) =~= kept@.skip(
                kept@.len() - 6,
            ));
        }
    }
    crate::text::chars_to_string(&suffix)
}

/// Builds the fixed list of scoped patterns for one suffix.
pub fn scoped_permission_patterns(suffix: &str) -> (pats: Vec<String>)
    ensures
        pats@.map_values(|s: String| s@) == scoped_pattern_list(suffix@),
{
    let mut pats: Vec<String> = Vec::new();
    pats.push(String::from_str("class.").concat(suffix));
    pats.push(String::from_str("group.view.").concat(suffix));
    pats.push(String::from_str("group.create.").concat(suffix));
    pats.push(String::from_str("group.update.").concat(suffix));
    pats.push(String::from_str("group.delete.").concat(suffix));
    pats.push(String::from_str("group.update.member.").concat(suffix));
    pats.push(String::from_str("group.update.score.").concat(suffix));
    proof {
        assert(pats@.map_values(|s: String| s@) =~= scoped_pattern_list(suffix@));
    }
    pats
}

/// The principal-owned rows after granting `pats` to `principal` at priority
/// `priority`, in order: each non-faulted key is upserted as an allowing
/// node, each faulted key is skipped.
pub open spec fn spec_grant_fold(
    rows: Seq<RowView>,
    faults: Seq<KeyView>,
    principal: Seq<char>,
    pats: Seq<Seq<char>>,
    priority: int,
) -> Seq<RowView>
    decreases pats.len(),
{
    if pats.len() == 0 {
        rows
    } else {
        let prev = spec_grant_fold(rows, faults, principal, pats.drop_last(), priority);
        if key_faulted(faults, principal, pats.last()) {
            prev
        } else {
            spec_upsert(
                prev,
                principal,
                NodeView { pattern: pats.last(), value: true, priority },
            )
        }
    }
}

/// The principal-owned rows after revoking `pats` from `principal`, in
/// order: each non-faulted key is deleted, each faulted key is skipped.
pub open spec fn spec_revoke_fold(
    rows: Seq<RowView>,
    faults: Seq<KeyView>,
    principal: Seq<char>,
    pats: Seq<Seq<char>>,
) -> Seq<RowView>
    decreases pats.len(),
{
    if pats.len() == 0 {
        rows
    } else {
        let prev = spec_revoke_fold(rows, faults, principal, pats.drop_last());
        if key_faulted(faults, principal, pats.last()) {
            prev
        } else {
            spec_remove(prev, principal, pats.last())
        }
    }
}

/// How many of the keys (principal, pats[j]) are not faulted: the number of
/// writes that succeed in a grant or revoke pass.
pub open spec fn spec_unfaulted_count(
    faults: Seq<KeyView>,
    principal: Seq<char>,
    pats: Seq<Seq<char>>,
) -> int
    decreases pats.len(),
{
    if pats.len() == 0 {
        0int
    } else {
        spec_unfaulted_count(faults, principal, pats.drop_last()) + if key_faulted(
            faults,
            principal,
            pats.last(),
        ) {
            0int
        } else {
            1int
        }
    }
}

impl PermissionManager {
    /// Grants the scoped patterns of `resource_id` to `principal`: each as a
    /// principal-owned allowing node at the elevated scoped priority. A
    /// failed write is skipped and the remaining patterns are still written;
    /// the count of successful writes is returned.
    pub fn grant_scoped_permissions(&mut self, principal: &str, resource_id: &str) -> (granted:
        usize)
        requires
            old(self).wf(),
        ensures
            final(self).wf(),
            final(self).directory == old(self).directory,
            final(self).store.roles() == old(self).store.roles(),
            final(self).store.role_faults() == old(self).store.role_faults(),
            final(self).store.principal_faults() == old(self).store.principal_faults(),
            final(self).store.principals() == spec_grant_fold(
                old(self).store.principals(),
                old(self).store.principal_faults(),
                principal@,
                scoped_pattern_list(spec_scoped_suffix(resource_id@)),
                SCOPED_GRANT_PRIORITY as int,
            ),
            granted as int == spec_unfaulted_count(
                old(self).store.principal_faults(),
                principal@,
                scoped_pattern_list(spec_scoped_suffix(resource_id@)),
            ),
    {
        let suffix = scoped_suffix(resource_id);
        let pats = scoped_permission_patterns(suffix.as_str());
        let ghost pat_views = scoped_pattern_list(spec_scoped_suffix(resource_id@));
        proof {
            reveal_strlit("class.");
            reveal_strlit("group.view.");
            reveal_strlit("group.create.");
            reveal_strlit("group.update.");
            reveal_strlit("group.delete.");
            reveal_strlit("group.update.member.");
            reveal_strlit("group.update.score.");
            assert(pat_views.take(0) =~= Seq::<Seq<char>>::empty());
        }
        let mut granted: usize = 0;
        let mut i: usize = 0;
        while i < pats.len()
            invariant
                0 <= i <= pats@.len(),
                pats@.len() == pat_views.len(),
                pats@.map_values(|s: String| s@) == pat_views,
                forall|k: int| 0 <= k < pat_views.len() ==> (#[trigger] pat_views[k]).len() > 0,
                self.wf(),
                self.directory == old(self).directory,
                self.store.roles() == old(self).store.roles(),
                self.store.role_faults() == old(self).store.role_faults(),
                self.store.principal_faults() == old(self).store.principal_faults(),
                self.store.principals() == spec_grant_fold(
                    old(self).store.principals(),
                    old(self).store.principal_faults(),
                    principal@,
                    pat_views.take(i as int),
                    SCOPED_GRANT_PRIORITY as int,
                ),
                granted <= i,
                granted as int == spec_unfaulted_count(
                    old(self).store.principal_faults(),
                    principal@,
                    pat_views.take(i as int),
                ),
            decreases pats@.len() - i,
        {
            proof {
                assert(pat_views.take(i + 1).drop_last() =~= pat_views.take(i as int));
                assert(pat_views.take(i + 1).last() == pats@[i as int]@);
            }
            let node = PermissionNode::new(pats[i].as_str(), true, SCOPED_GRANT_PRIORITY);
            match self.store.upsert_principal_node(principal, node) {
                Ok(()) => {
                    granted = granted + 1;
                },
                Err(_) => {},
            }
            i += 1;
        }
        proof {
            assert(pat_views.take(pats@.len() as int) =~= pat_views);
        }
        granted
    }

    /// Revokes the scoped patterns of `resource_id` from `principal`: each
    /// principal-owned node under those keys is deleted; a missing key is a
    /// no-op. A failed write is skipped and the remaining patterns are still
    /// deleted; the count of successful writes is returned.
    pub fn revoke_scoped_permissions(&mut self, principal: &str, resource_id: &str) -> (revoked:
        usize)
        requires
            old(self).wf(),
        ensures
            final(self).wf(),
            final(self).directory == old(self).directory,
            final(self).store.roles() == old(self).store.roles(),
            final(self).store.role_faults() == old(self).store.role_faults(),
            final(self).store.principal_faults() == old(self).store.principal_faults(),
            final(self).store.principals() == spec_revoke_fold(
                old(self).store.principals(),
                old(self).store.principal_faults(),
                principal@,
                scoped_pattern_list(spec_scoped_suffix(resource_id@)),
            ),
            revoked as int == spec_unfaulted_count(
                old(self).store.principal_faults(),
                principal@,
                scoped_pattern_list(spec_scoped_suffix(resource_id@)),
            ),
    {
        let suffix = scoped_suffix(resource_id);
        let pats = scoped_permission_patterns(suffix.as_str());
        let ghost pat_views = scoped_pattern_list(spec_scoped_suffix(resource_id@));
        proof {
            assert(pat_views.take(0) =~= Seq::<Seq<char>>::empty());
        }
        let mut revoked: usize = 0;
        let mut i: usize = 0;
        while i < pats.len()
            invariant
                0 <= i <= pats@.len(),
                pats@.len() == pat_views.len(),
                pats@.map_values(|s: String| s@) == pat_views,
                self.wf(),
                self.directory == old(self).directory,
                self.store.roles() == old(self).store.roles(),
                self.store.role_faults() == old(self).store.role_faults(),
                self.store.principal_faults() == old(self).store.principal_faults(),
                self.store.principals() == spec_revoke_fold(
                    old(self).store.principals(),
                    old(self).store.principal_faults(),
                    principal@,
                    pat_views.take(i as int),
                ),
                revoked <= i,
                revoked as int == spec_unfaulted_count(
                    old(self).store.principal_faults(),
                    principal@,
                    pat_views.take(i as int),
                ),
            decreases pats@.len() - i,
        {
            proof {
                assert(pat_views.take(i + 1).drop_last() =~= pat_views.take(i as int));
                assert(pat_views.take(i + 1).last() == pats@[i as int]@);
            }
            match self.store.delete_principal_node(principal, pats[i].as_str()) {
                Ok(()) => {
                    revoked = revoked + 1;
                },
                Err(_) => {},
            }
            i += 1;
        }
        proof {
            assert(pat_views.take(pats@.len() as int) =~= pat_views);
        }
        revoked
    }

    /// Applies a resource-ownership reassignment: first grants the scoped
    /// patterns of `resource_id` to the incoming principal, then revokes them
    /// from the outgoing one. The two halves are independent: a failure in
    /// one never rolls the other back. Returns the counts of successful
    /// grant and revoke writes.
    pub fn reassign_scoped_permissions(
        &mut self,
        outgoing: Option<&str>,
        incoming: Option<&str>,
        resource_id: &str,
    ) -> (counts: (usize, usize))
        requires
            old(self).wf(),
        ensures
            final(self).wf(),
            final(self).directory == old(self).directory,
            final(self).store.roles() == old(self).store.roles(),
            final(self).store.role_faults() == old(self).store.role_faults(),
            final(self).store.principal_faults() == old(self).store.principal_faults(),
            ({
                let pats = scoped_pattern_list(spec_scoped_suffix(resource_id@));
                let faults = old(self).store.principal_faults();
                let after_grant = match incoming {
                    Option::Some(p) => spec_grant_fold(
                        old(self).store.principals(),
                        faults,
                        p@,
                        pats,
                        SCOPED_GRANT_PRIORITY as int,
                    ),
                    Option::None => old(self).store.principals(),
                };
                final(self).store.principals() == (match outgoing {
                    Option::Some(p) => spec_revoke_fold(after_grant, faults, p@, pats),
                    Option::None => after_grant,
                })
            }),
    {
        let granted: usize = match incoming {
            Option::Some(p) => self.grant_scoped_permissions(p, resource_id),
            Option::None => 0,
        };
        let revoked: usize = match outgoing {
            Option::Some(p) => self.revoke_scoped_permissions(p, resource_id),
            Option::None => 0,
        };
        (granted, revoked)
    }

    /// Requires the resource-scoped permission `<action>.<suffix>` of
    /// `resource_id` for `principal`, fail-closed like
    /// [`PermissionManager::require_permission`].
    pub fn require_class_permission(&self, principal: &str, action: &str, resource_id: &str) -> (r:
        Result<(), AuthError>)
        ensures
            r is Ok <==> self.spec_check(
                principal@,
                action@ + "."@ + spec_scoped_suffix(resource_id@),
            ) == PermissionResult::Allowed,
            r == Err::<(), AuthError>(AuthError::Denied) <==> self.spec_check(
                principal@,
                action@ + "."@ + spec_scoped_suffix(resource_id@),
            ) == PermissionResult::Denied,
            r == Err::<(), AuthError>(AuthError::NotSet) <==> self.spec_check(
                principal@,
                action@ + "."@ + spec_scoped_suffix(resource_id@),
            ) == PermissionResult::NotSet,
    {
        let suffix = scoped_suffix(resource_id);
        let target = String::from_str(action).concat(".").concat(suffix.as_str());
        self.require_permission(principal, target.as_str())
    }
}

/// `r` stands somewhere in `rows`.
pub open spec fn row_from(rows: Seq<RowView>, r: RowView) -> bool {
    exists|q: int| #![trigger rows[q]] 0 <= q < rows.len() && rows[q] == r
}

/// `r` is a row a grant pass writes: owned by the principal, allowing, at
/// the grant priority, under one of the granted patterns.
pub open spec fn granted_row(
    principal: Seq<char>,
    pats: Seq<Seq<char>>,
    priority: int,
    r: RowView,
) -> bool {
    r.owner == principal && r.node.value == true && r.node.priority == priority && pats.contains(
        r.node.pattern,
    )
}

/// What a grant pass leaves behind: keys stay unique, every row is an old
/// row or a granted one, and every non-faulted granted key holds its granted
/// node.
pub proof fn lemma_grant_fold_props(
    rows: Seq<RowView>,
    faults: Seq<KeyView>,
    principal: Seq<char>,
    pats: Seq<Seq<char>>,
    priority: int,
)
    requires
        keys_unique(rows),
    ensures
        keys_unique(spec_grant_fold(rows, faults, principal, pats, priority)),
        forall|r: int|
            #![trigger spec_grant_fold(rows, faults, principal, pats, priority)[r]]
            0 <= r < spec_grant_fold(rows, faults, principal, pats, priority).len() ==> (row_from(
                rows,
                spec_grant_fold(rows, faults, principal, pats, priority)[r],
            ) || granted_row(
                principal,
                pats,
                priority,
                spec_grant_fold(rows, faults, principal, pats, priority)[r],
            )),
        forall|j: int|
            #![trigger pats[j]]
            0 <= j < pats.len() && !key_faulted(faults, principal, pats[j]) ==> row_with_node(
                spec_grant_fold(rows, faults, principal, pats, priority),
                principal,
                NodeView { pattern: pats[j], value: true, priority },
            ),
    decreases pats.len(),
{
    if pats.len() > 0 {
        lemma_grant_fold_props(rows, faults, principal, pats.drop_last(), priority);
        let rest = pats.drop_last();
        let prev = spec_grant_fold(rows, faults, principal, rest, priority);
        let out = spec_grant_fold(rows, faults, principal, pats, priority);
        let last = pats.last();
        let lnode = NodeView { pattern: last, value: true, priority };
        assert(forall|j: int| 0 <= j < pats.len() - 1 ==> pats[j] == rest[j]);
        assert(pats[pats.len() - 1] == last);
        if key_faulted(faults, principal, last) {
            assert(out == prev);
            assert forall|r: int|
                #![trigger out[r]]
                0 <= r < out.len() implies (row_from(rows, out[r]) || granted_row(
                principal,
                pats,
                priority,
                out[r],
            )) by {
                if granted_row(principal, rest, priority, out[r]) {
                    let j = choose|j: int| 0 <= j < rest.len() && rest[j] == out[r].node.pattern;
                    assert(pats[j] == out[r].node.pattern);
                }
            }
            assert forall|j: int|
                #![trigger pats[j]]
                0 <= j < pats.len() && !key_faulted(faults, principal, pats[j]) implies
                row_with_node(out, principal, NodeView { pattern: pats[j], value: true, priority })
            by {
                assert(j < pats.len() - 1);
                assert(rest[j] == pats[j]);
            }
        } else {
            assert(out == spec_upsert(prev, principal, lnode));
            lemma_upsert_idempotent(prev, principal, lnode);
            lemma_upsert_effect(prev, principal, lnode);
            assert forall|r: int|
                #![trigger out[r]]
                0 <= r < out.len() implies (row_from(rows, out[r]) || granted_row(
                principal,
                pats,
                priority,
                out[r],
            )) by {
                if out[r] == (RowView { owner: principal, node: lnode }) {
                    assert(pats[pats.len() - 1] == out[r].node.pattern);
                    assert(granted_row(principal, pats, priority, out[r]));
                } else {
                    assert(0 <= r < prev.len() && out[r] == prev[r]);
                    if granted_row(principal, rest, priority, prev[r]) {
                        let j = choose|j: int|
                            0 <= j < rest.len() && rest[j] == prev[r].node.pattern;
                        assert(pats[j] == prev[r].node.pattern);
                    }
                }
            }
            assert forall|j: int|
                #![trigger pats[j]]
                0 <= j < pats.len() && !key_faulted(faults, principal, pats[j]) implies
                row_with_node(out, principal, NodeView { pattern: pats[j], value: true, priority })
            by {
                let jnode = NodeView { pattern: pats[j], value: true, priority };
                if j == pats.len() - 1 {
                    let r = choose|r: int|
                        0 <= r < out.len() && #[trigger] out[r] == (RowView {
                            owner: principal,
                            node: lnode,
                        });
                    assert(out[r].owner == principal && out[r].node == jnode);
                } else {
                    assert(rest[j] == pats[j]);
                    assert(row_with_node(prev, principal, jnode));
                    let q = choose|q: int|
                        #![trigger prev[q]]
                        0 <= q < prev.len() && prev[q].owner == principal && prev[q].node == jnode;
                    if pats[j] == last {
                        let r = choose|r: int|
                            0 <= r < out.len() && #[trigger] out[r] == (RowView {
                                owner: principal,
                                node: lnode,
                            });
                        assert(out[r].owner == principal && out[r].node == jnode);
                    } else {
                        assert(!row_has_key(prev[q], principal, last));
                        assert(out[q] == prev[q]);
                        assert(out[q].owner == principal && out[q].node == jnode);
                    }
                }
            }
        }
    }
}

/// Law: after a scoped grant whose write for a synthesized pattern
/// succeeded, resolving that pattern for the principal yields `Allowed`,
/// provided every node that stood before the grant and matches the pattern
/// carries an ordinary priority, below the scoped grant's. The granted node
/// matches its own literal pattern and outranks everything else that
/// matches, and every node at the grant priority is an allowing granted one.
pub proof fn lemma_scoped_grant_allows(
    m0: PermissionManager,
    m1: PermissionManager,
    principal: Seq<char>,
    resource_id: Seq<char>,
    target: Seq<char>,
)
    requires
        m0.wf(),
        m0.directory.role_of(principal) is Some,
        m1.directory == m0.directory,
        m1.store.roles() == m0.store.roles(),
        m1.store.principals() == spec_grant_fold(
            m0.store.principals(),
            m0.store.principal_faults(),
            principal,
            scoped_pattern_list(spec_scoped_suffix(resource_id)),
            SCOPED_GRANT_PRIORITY as int,
        ),
        scoped_pattern_list(spec_scoped_suffix(resource_id)).contains(target),
        !key_faulted(m0.store.principal_faults(), principal, target),
        forall|k: int|
            #![trigger m0.merged_for(principal, m0.directory.role_of(principal).unwrap())[k]]
            0 <= k < m0.merged_for(principal, m0.directory.role_of(principal).unwrap()).len()
                ==> (pattern_matches(
                m0.merged_for(principal, m0.directory.role_of(principal).unwrap())[k].pattern,
                target,
            ) ==> m0.merged_for(principal, m0.directory.role_of(principal).unwrap())[k].priority
                < SCOPED_GRANT_PRIORITY as int),
    ensures
        m1.spec_check(principal, target) == PermissionResult::Allowed,
{
    let role = m0.directory.role_of(principal).unwrap();
    let pats = scoped_pattern_list(spec_scoped_suffix(resource_id));
    let pri = SCOPED_GRANT_PRIORITY as int;
    let faults = m0.store.principal_faults();
    let p0 = m0.store.principals();
    let p1 = m1.store.principals();
    let gnode = NodeView { pattern: target, value: true, priority: pri };
    let merged0 = m0.merged_for(principal, role);
    let merged1 = m1.merged_for(principal, role);
    let role_part = nodes_for_owner(m0.store.roles(), role);
    lemma_grant_fold_props(p0, faults, principal, pats, pri);
    let j = choose|j: int| 0 <= j < pats.len() && pats[j] == target;
    assert(row_with_node(p1, principal, gnode));
    lemma_nodes_for_owner_members(p1, principal);
    let q = choose|q: int|
        #![trigger p1[q]]
        0 <= q < p1.len() && p1[q].owner == principal && p1[q].node == gnode;
    assert(listed_node(p1, principal, gnode));
    let gi = choose|gi: int|
        #![trigger nodes_for_owner(p1, principal)[gi]]
        0 <= gi < nodes_for_owner(p1, principal).len() && nodes_for_owner(p1, principal)[gi]
            == gnode;
    let mi = role_part.len() + gi;
    assert(merged1[mi] == gnode);
    lemma_matches_reflexive(target);
    lemma_best_match_some(merged1, target, mi);
    lemma_best_match_characterization(merged1, target);
    let w = best_match(merged1, target).unwrap();
    assert(pattern_matches(merged1[mi].pattern, target));
    assert(merged1[w].priority >= pri);
    if w < role_part.len() {
        assert(merged1[w] == role_part[w]);
        assert(merged0[w] == role_part[w]);
        assert(pattern_matches(merged0[w].pattern, target) ==> merged0[w].priority < pri);
        assert(false);
    } else {
        let wi = w - role_part.len();
        let wnode = nodes_for_owner(p1, principal)[wi];
        assert(merged1[w] == wnode);
        assert(row_with_node(p1, principal, wnode));
        let wq = choose|wq: int|
            #![trigger p1[wq]]
            0 <= wq < p1.len() && p1[wq].owner == principal && p1[wq].node == wnode;
        if granted_row(principal, pats, pri, p1[wq]) {
            assert(wnode.value == true);
        } else {
            assert(row_from(p0, p1[wq]));
            let q0 = choose|q0: int| #![trigger p0[q0]] 0 <= q0 < p0.len() && p0[q0] == p1[wq];
            lemma_nodes_for_owner_members(p0, principal);
            assert(p0[q0].owner == principal);
            assert(listed_node(p0, principal, wnode));
            let i0 = choose|i0: int|
                #![trigger nodes_for_owner(p0, principal)[i0]]
                0 <= i0 < nodes_for_owner(p0, principal).len() && nodes_for_owner(p0, principal)[
                    i0] == wnode;
            assert(merged0[role_part.len() + i0] == wnode);
            assert(pattern_matches(wnode.pattern, target));
            assert(wnode.priority < pri);
            assert(false);
        }
        assert(spec_evaluate(merged1, target) == PermissionResult::Allowed);
    }
}

} // verus!
