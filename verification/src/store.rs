//! The policy store: role-owned and principal-owned nodes, keyed by
//! (owner, pattern).
//!
//! The store keeps the two ownership collections disjoint, holds at most one
//! node per key, and never stores an empty pattern. Writes are single-key and
//! idempotent: an upsert fully replaces value and priority, a delete of a
//! missing key is a no-op. Every write can fail independently; a configurable
//! set of faulted keys models a backend whose write for that key is currently
//! failing, so that callers' partial-failure behaviour can be exercised.

use vstd::prelude::*;

use crate::node::{NodeView, PermissionNode};

verus! {

/// A single read or write against the store failed.
#[derive(Debug, PartialEq, Eq, Structural, Clone, Copy)]
pub struct StoreError;

/// One stored node together with its owner: a role name or a principal id,
/// depending on which collection holds the row.
pub struct StoredRow {
    pub owner: String,
    pub node: PermissionNode,
}

/// The mathematical content of a stored row.
pub ghost struct RowView {
    pub owner: Seq<char>,
    pub node: NodeView,
}

impl View for StoredRow {
    type V = RowView;

    open spec fn view(&self) -> RowView {
        RowView { owner: self.owner@, node: self.node@ }
    }
}

/// A (owner, pattern) key, used to mark writes that currently fail.
pub struct FaultKey {
    pub owner: String,
    pub pattern: String,
}

/// The mathematical content of a fault key.
pub ghost struct KeyView {
    pub owner: Seq<char>,
    pub pattern: Seq<char>,
}

impl View for FaultKey {
    type V = KeyView;

    open spec fn view(&self) -> KeyView {
        KeyView { owner: self.owner@, pattern: self.pattern@ }
    }
}

/// Whether row `r` carries the key (owner, pattern).
pub open spec fn row_has_key(r: RowView, owner: Seq<char>, pattern: Seq<char>) -> bool {
    r.owner == owner && r.node.pattern == pattern
}

/// The index of the row keyed (owner, pattern), or -1 when absent. Scanning
/// from the back; under [`keys_unique`] at most one row can match.
pub open spec fn find_key(rows: Seq<RowView>, owner: Seq<char>, pattern: Seq<char>) -> int
    decreases rows.len(),
{
    if rows.len() == 0 {
        -1
    } else if row_has_key(rows.last(), owner, pattern) {
        rows.len() - 1
    } else {
        find_key(rows.drop_last(), owner, pattern)
    }
}

/// No two rows share a key.
pub open spec fn keys_unique(rows: Seq<RowView>) -> bool {
    forall|i: int, j: int|
        #![trigger rows[i], rows[j]]
        0 <= i < j < rows.len() ==> !row_has_key(rows[i], rows[j].owner, rows[j].node.pattern)
}

/// Every stored pattern is non-empty.
pub open spec fn patterns_nonempty(rows: Seq<RowView>) -> bool {
    forall|i: int| 0 <= i < rows.len() ==> (#[trigger] rows[i]).node.pattern.len() > 0
}

/// What `find_key` finds: -1 means no row has the key; a non-negative result
/// is the last index with the key, and no later row carries it.
pub proof fn lemma_find_key(rows: Seq<RowView>, owner: Seq<char>, pattern: Seq<char>)
    ensures
        find_key(rows, owner, pattern) == -1 ==> forall|j: int|
            0 <= j < rows.len() ==> !row_has_key(#[trigger] rows[j], owner, pattern),
        find_key(rows, owner, pattern) != -1 ==> {
            &&& 0 <= find_key(rows, owner, pattern) < rows.len()
            &&& row_has_key(rows[find_key(rows, owner, pattern)], owner, pattern)
            &&& forall|j: int|
                find_key(rows, owner, pattern) < j < rows.len() ==> !row_has_key(
                    #[trigger] rows[j],
                    owner,
                    pattern,
                )
        },
    decreases rows.len(),
{
    if rows.len() > 0 {
        lemma_find_key(rows.drop_last(), owner, pattern);
        assert(forall|j: int| 0 <= j < rows.len() - 1 ==> rows[j] == rows.drop_last()[j]);
    }
}

/// The rows after writing `node` for `owner`: replaced in place when the key
/// is present, appended otherwise.
pub open spec fn spec_upsert(rows: Seq<RowView>, owner: Seq<char>, node: NodeView) -> Seq<
    RowView,
> {
    let i = find_key(rows, owner, node.pattern);
    let row = RowView { owner, node };
    if i >= 0 {
        rows.update(i, row)
    } else {
        rows.push(row)
    }
}

/// The rows after deleting the key (owner, pattern): unchanged when absent.
pub open spec fn spec_remove(rows: Seq<RowView>, owner: Seq<char>, pattern: Seq<char>) -> Seq<
    RowView,
> {
    let i = find_key(rows, owner, pattern);
    if i >= 0 {
        rows.remove(i)
    } else {
        rows
    }
}

/// The node stored under (owner, pattern), if any.
pub open spec fn lookup(rows: Seq<RowView>, owner: Seq<char>, pattern: Seq<char>) -> Option<
    NodeView,
> {
    let i = find_key(rows, owner, pattern);
    if i >= 0 {
        Some(rows[i].node)
    } else {
        None
    }
}

/// Whether a row belongs to `owner`.
pub open spec fn owner_is(owner: Seq<char>) -> spec_fn(RowView) -> bool {
    |r: RowView| r.owner == owner
}

/// The nodes owned by `owner`, in stored order.
pub open spec fn nodes_for_owner(rows: Seq<RowView>, owner: Seq<char>) -> Seq<NodeView> {
    rows.filter(owner_is(owner)).map_values(|r: RowView| r.node)
}

/// Whether the fault set holds the key (owner, pattern).
pub open spec fn key_faulted(faults: Seq<KeyView>, owner: Seq<char>, pattern: Seq<char>) -> bool {
    exists|i: int|
        0 <= i < faults.len() && (#[trigger] faults[i]).owner == owner && faults[i].pattern
            == pattern
}

/// Finds the index of the row keyed (owner, pattern), scanning the way
/// [`find_key`] does.
fn rows_find(rows: &Vec<StoredRow>, owner: &str, pattern: &str) -> (idx: Option<usize>)
    ensures
        match idx {
            Some(i) => i as int == find_key(
                rows@.map_values(|r: StoredRow| r@),
                owner@,
                pattern@,
            ),
            None => find_key(rows@.map_values(|r: StoredRow| r@), owner@, pattern@) == -1,
        },
{
    let ghost views = rows@.map_values(|r: StoredRow| r@);
    proof {
        assert(views.take(rows@.len() as int) =~= views);
    }
    let mut i: usize = rows.len();
    while i > 0
        invariant
            0 <= i <= rows@.len(),
            views == rows@.map_values(|r: StoredRow| r@),
            views.len() == rows@.len(),
            forall|j: int| 0 <= j < rows@.len() ==> views[j] == rows@[j]@,
            find_key(views, owner@, pattern@) == find_key(views.take(i as int), owner@, pattern@),
        decreases i,
    {
        let j = i - 1;
        proof {
            assert(views.take(i as int).last() == views[j as int]);
            assert(views.take(i as int).drop_last() =~= views.take(j as int));
        }
        if crate::text::str_eq(rows[j].owner.as_str(), owner) && crate::text::str_eq(
            rows[j].node.permission.as_str(),
            pattern,
        ) {
            return Some(j);
        }
        i = j;
    }
    proof {
        assert(views.take(0) =~= Seq::<RowView>::empty());
    }
    None
}

/// Writes `node` for `owner` into `rows`: replaces the keyed row in place or
/// appends a new one.
fn rows_upsert(rows: &mut Vec<StoredRow>, owner: &str, node: PermissionNode)
    ensures
        final(rows)@.map_values(|r: StoredRow| r@) == spec_upsert(
            old(rows)@.map_values(|r: StoredRow| r@),
            owner@,
            node@,
        ),
{
    let row = StoredRow { owner: owner.to_owned(), node };
    let idx = rows_find(rows, owner, row.node.permission.as_str());
    proof {
        lemma_find_key(rows@.map_values(|r: StoredRow| r@), owner@, node@.pattern);
    }
    match idx {
        Some(i) => {
            rows[i] = row;
            proof {
                assert(rows@.map_values(|r: StoredRow| r@) =~= spec_upsert(
                    old(rows)@.map_values(|r: StoredRow| r@),
                    owner@,
                    node@,
                ));
            }
        },
        None => {
            rows.push(row);
            proof {
                assert(rows@.map_values(|r: StoredRow| r@) =~= spec_upsert(
                    old(rows)@.map_values(|r: StoredRow| r@),
                    owner@,
                    node@,
                ));
            }
        },
    }
}

/// Deletes the row keyed (owner, pattern) from `rows`; a no-op when absent.
fn rows_remove(rows: &mut Vec<StoredRow>, owner: &str, pattern: &str)
    ensures
        final(rows)@.map_values(|r: StoredRow| r@) == spec_remove(
            old(rows)@.map_values(|r: StoredRow| r@),
            owner@,
            pattern@,
        ),
{
    let idx = rows_find(rows, owner, pattern);
    proof {
        lemma_find_key(rows@.map_values(|r: StoredRow| r@), owner@, pattern@);
    }
    match idx {
        Some(i) => {
            rows.remove(i);
            proof {
                assert(rows@.map_values(|r: StoredRow| r@) =~= spec_remove(
                    old(rows)@.map_values(|r: StoredRow| r@),
                    owner@,
                    pattern@,
                ));
            }
        },
        None => {},
    }
}

/// Collects the nodes owned by `owner`, in stored order.
fn rows_for_owner(rows: &Vec<StoredRow>, owner: &str) -> (nodes: Vec<PermissionNode>)
    ensures
        nodes@.map_values(|n: PermissionNode| n@) == nodes_for_owner(
            rows@.map_values(|r: StoredRow| r@),
            owner@,
        ),
{
    let ghost views = rows@.map_values(|r: StoredRow| r@);
    let ghost pred = owner_is(owner@);
    let mut nodes: Vec<PermissionNode> = Vec::new();
    proof {
        reveal(Seq::filter);
        assert(views.take(0) =~= Seq::<RowView>::empty());
        assert(nodes@.map_values(|n: PermissionNode| n@) =~= views.take(0).filter(pred).map_values(
            |r: RowView| r.node,
        ));
    }
    let mut i: usize = 0;
    while i < rows.len()
        invariant
            0 <= i <= rows@.len(),
            views == rows@.map_values(|r: StoredRow| r@),
            views.len() == rows@.len(),
            pred == owner_is(owner@),
            forall|j: int| 0 <= j < rows@.len() ==> views[j] == rows@[j]@,
            nodes@.map_values(|n: PermissionNode| n@) =~= views.take(i as int).filter(
                pred,
            ).map_values(|r: RowView| r.node),
        decreases rows@.len() - i,
    {
        proof {
            reveal(Seq::filter);
            assert(views.take(i + 1).drop_last() =~= views.take(i as int));
            assert(views.take(i + 1).last() == views[i as int]);
        }
        if crate::text::str_eq(rows[i].owner.as_str(), owner) {
            let ghost prev = nodes@;
            nodes.push(rows[i].node.duplicate());
            proof {
                reveal(Seq::filter);
                assert(pred(views[i as int]));
                assert(views.take(i + 1).filter(pred) == views.take(i as int).filter(pred).push(
                    views[i as int],
                ));
                assert(nodes@.map_values(|n: PermissionNode| n@) =~= prev.map_values(
                    |n: PermissionNode| n@,
                ).push(views[i as int].node));
                assert(nodes@.map_values(|n: PermissionNode| n@) =~= views.take(i + 1).filter(
                    pred,
                ).map_values(|r: RowView| r.node));
            }
        } else {
            proof {
                reveal(Seq::filter);
                assert(!pred(views[i as int]));
                assert(views.take(i + 1).filter(pred) == views.take(i as int).filter(pred));
            }
        }
        i += 1;
    }
    proof {
        assert(views.take(rows@.len() as int) =~= views);
    }
    nodes
}

/// Whether the fault set holds the key (owner, pattern).
fn faults_contain(faults: &Vec<FaultKey>, owner: &str, pattern: &str) -> (r: bool)
    ensures
        r == key_faulted(faults@.map_values(|k: FaultKey| k@), owner@, pattern@),
{
    let ghost views = faults@.map_values(|k: FaultKey| k@);
    let mut i: usize = 0;
    while i < faults.len()
        invariant
            0 <= i <= faults@.len(),
            views == faults@.map_values(|k: FaultKey| k@),
            views.len() == faults@.len(),
            forall|j: int| 0 <= j < faults@.len() ==> views[j] == faults@[j]@,
            forall|j: int|
                0 <= j < i ==> !((#[trigger] views[j]).owner == owner@ && views[j].pattern
                    == pattern@),
        decreases faults@.len() - i,
    {
        if crate::text::str_eq(faults[i].owner.as_str(), owner) && crate::text::str_eq(
            faults[i].pattern.as_str(),
            pattern,
        ) {
            proof {
                assert(views[i as int].owner == owner@ && views[i as int].pattern == pattern@);
            }
            return true;
        }
        i += 1;
    }
    false
}

/// Copies the rows whose owner differs from `owner`.
fn rows_keep_other_owners(rows: &Vec<StoredRow>, owner: &str) -> (kept: Vec<StoredRow>)
    ensures
        kept@.map_values(|r: StoredRow| r@) == rows_without_owner(
            rows@.map_values(|r: StoredRow| r@),
            owner@,
        ),
{
    let ghost views = rows@.map_values(|r: StoredRow| r@);
    let ghost pred = owner_is_not(owner@);
    let mut kept: Vec<StoredRow> = Vec::new();
    proof {
        reveal(Seq::filter);
        assert(views.take(0) =~= Seq::<RowView>::empty());
        assert(kept@.map_values(|r: StoredRow| r@) =~= views.take(0).filter(pred));
    }
    let mut i: usize = 0;
    while i < rows.len()
        invariant
            0 <= i <= rows@.len(),
            views == rows@.map_values(|r: StoredRow| r@),
            views.len() == rows@.len(),
            pred == owner_is_not(owner@),
            forall|j: int| 0 <= j < rows@.len() ==> views[j] == rows@[j]@,
            kept@.map_values(|r: StoredRow| r@) =~= views.take(i as int).filter(pred),
        decreases rows@.len() - i,
    {
        proof {
            reveal(Seq::filter);
            assert(views.take(i + 1).drop_last() =~= views.take(i as int));
            assert(views.take(i + 1).last() == views[i as int]);
        }
        if !crate::text::str_eq(rows[i].owner.as_str(), owner) {
            let ghost prev = kept@;
            kept.push(
                StoredRow {
                    owner: rows[i].owner.clone(),
                    node: rows[i].node.duplicate(),
                },
            );
            proof {
                reveal(Seq::filter);
                assert(pred(views[i as int]));
                assert(views.take(i + 1).filter(pred) == views.take(i as int).filter(pred).push(
                    views[i as int],
                ));
                assert(kept@.map_values(|r: StoredRow| r@) =~= prev.map_values(
                    |r: StoredRow| r@,
                ).push(views[i as int]));
            }
        } else {
            proof {
                reveal(Seq::filter);
                assert(!pred(views[i as int]));
                assert(views.take(i + 1).filter(pred) == views.take(i as int).filter(pred));
            }
        }
        i += 1;
    }
    proof {
        assert(views.take(rows@.len() as int) =~= views);
    }
    kept
}

/// The store: role-owned and principal-owned nodes in two disjoint
/// collections, each holding at most one node per (owner, pattern) key, plus
/// the set of keys whose writes currently fail.
pub struct PolicyStore {
    role_rows: Vec<StoredRow>,
    principal_rows: Vec<StoredRow>,
    role_write_faults: Vec<FaultKey>,
    principal_write_faults: Vec<FaultKey>,
}

impl PolicyStore {
    /// The role-owned rows.
    pub closed spec fn roles(self) -> Seq<RowView> {
        self.role_rows@.map_values(|r: StoredRow| r@)
    }

    /// The principal-owned rows.
    pub closed spec fn principals(self) -> Seq<RowView> {
        self.principal_rows@.map_values(|r: StoredRow| r@)
    }

    /// The keys whose role-side writes currently fail.
    pub closed spec fn role_faults(self) -> Seq<KeyView> {
        self.role_write_faults@.map_values(|k: FaultKey| k@)
    }

    /// The keys whose principal-side writes currently fail.
    pub closed spec fn principal_faults(self) -> Seq<KeyView> {
        self.principal_write_faults@.map_values(|k: FaultKey| k@)
    }

    /// Well-formedness: at most one node per key and no empty pattern, on
    /// both sides.
    pub open spec fn wf(self) -> bool {
        &&& keys_unique(self.roles())
        &&& patterns_nonempty(self.roles())
        &&& keys_unique(self.principals())
        &&& patterns_nonempty(self.principals())
    }

    /// An empty store with no write faults.
    pub fn new() -> (s: Self)
        ensures
            s.wf(),
            s.roles() == Seq::<RowView>::empty(),
            s.principals() == Seq::<RowView>::empty(),
            s.role_faults() == Seq::<KeyView>::empty(),
            s.principal_faults() == Seq::<KeyView>::empty(),
    {
        let s = PolicyStore {
            role_rows: Vec::new(),
            principal_rows: Vec::new(),
            role_write_faults: Vec::new(),
            principal_write_faults: Vec::new(),
        };
        proof {
            assert(s.roles() =~= Seq::<RowView>::empty());
            assert(s.principals() =~= Seq::<RowView>::empty());
            assert(s.role_faults() =~= Seq::<KeyView>::empty());
            assert(s.principal_faults() =~= Seq::<KeyView>::empty());
        }
        s
    }

    /// Marks the role-side key (role, pattern) as currently failing writes.
    pub fn add_role_write_fault(&mut self, role: &str, pattern: &str)
        ensures
            final(self).role_faults() == old(self).role_faults().push(
                KeyView { owner: role@, pattern: pattern@ },
            ),
            final(self).roles() == old(self).roles(),
            final(self).principals() == old(self).principals(),
            final(self).principal_faults() == old(self).principal_faults(),
            old(self).wf() ==> final(self).wf(),
    {
        self.role_write_faults.push(
            FaultKey { owner: role.to_owned(), pattern: pattern.to_owned() },
        );
        proof {
            assert(self.role_faults() =~= old(self).role_faults().push(
                KeyView { owner: role@, pattern: pattern@ },
            ));
        }
    }

    /// Marks the principal-side key (principal, pattern) as currently
    /// failing writes.
    pub fn add_principal_write_fault(&mut self, principal: &str, pattern: &str)
        ensures
            final(self).principal_faults() == old(self).principal_faults().push(
                KeyView { owner: principal@, pattern: pattern@ },
            ),
            final(self).roles() == old(self).roles(),
            final(self).principals() == old(self).principals(),
            final(self).role_faults() == old(self).role_faults(),
            old(self).wf() ==> final(self).wf(),
    {
        self.principal_write_faults.push(
            FaultKey { owner: principal.to_owned(), pattern: pattern.to_owned() },
        );
        proof {
            assert(self.principal_faults() =~= old(self).principal_faults().push(
                KeyView { owner: principal@, pattern: pattern@ },
            ));
        }
    }

    /// Clears every write fault.
    pub fn clear_write_faults(&mut self)
        ensures
            final(self).role_faults() == Seq::<KeyView>::empty(),
            final(self).principal_faults() == Seq::<KeyView>::empty(),
            final(self).roles() == old(self).roles(),
            final(self).principals() == old(self).principals(),
            old(self).wf() ==> final(self).wf(),
    {
        self.role_write_faults.clear();
        self.principal_write_faults.clear();
        proof {
            assert(self.role_faults() =~= Seq::<KeyView>::empty());
            assert(self.principal_faults() =~= Seq::<KeyView>::empty());
        }
    }

    /// The nodes owned by `role`, in stored order.
    pub fn get_role_nodes(&self, role: &str) -> (nodes: Vec<PermissionNode>)
        ensures
            nodes@.map_values(|n: PermissionNode| n@) == nodes_for_owner(self.roles(), role@),
    {
        rows_for_owner(&self.role_rows, role)
    }

    /// The nodes owned by `principal`, in stored order.
    pub fn get_principal_nodes(&self, principal: &str) -> (nodes: Vec<PermissionNode>)
        ensures
            nodes@.map_values(|n: PermissionNode| n@) == nodes_for_owner(
                self.principals(),
                principal@,
            ),
    {
        rows_for_owner(&self.principal_rows, principal)
    }

    /// Writes `node` for `role`: replaces the keyed row or appends a new one.
    /// Fails, leaving the store unchanged, exactly when the key is marked
    /// faulted.
    pub fn upsert_role_node(&mut self, role: &str, node: PermissionNode) -> (r: Result<
        (),
        StoreError,
    >)
        requires
            old(self).wf(),
            node@.pattern.len() > 0,
        ensures
            final(self).wf(),
            final(self).principals() == old(self).principals(),
            final(self).role_faults() == old(self).role_faults(),
            final(self).principal_faults() == old(self).principal_faults(),
            r is Ok <==> !key_faulted(old(self).role_faults(), role@, node@.pattern),
            r is Ok ==> final(self).roles() == spec_upsert(old(self).roles(), role@, node@),
            r is Err ==> final(self).roles() == old(self).roles(),
    {
        if faults_contain(&self.role_write_faults, role, node.permission.as_str()) {
            return Err(StoreError);
        }
        proof {
            lemma_upsert_wf(self.roles(), role@, node@);
        }
        rows_upsert(&mut self.role_rows, role, node);
        Ok(())
    }

    /// Writes `node` for `principal`, as [`Self::upsert_role_node`] does on
    /// the role side.
    pub fn upsert_principal_node(&mut self, principal: &str, node: PermissionNode) -> (r: Result<
        (),
        StoreError,
    >)
        requires
            old(self).wf(),
            node@.pattern.len() > 0,
        ensures
            final(self).wf(),
            final(self).roles() == old(self).roles(),
            final(self).role_faults() == old(self).role_faults(),
            final(self).principal_faults() == old(self).principal_faults(),
            r is Ok <==> !key_faulted(old(self).principal_faults(), principal@, node@.pattern),
            r is Ok ==> final(self).principals() == spec_upsert(
                old(self).principals(),
                principal@,
                node@,
            ),
            r is Err ==> final(self).principals() == old(self).principals(),
    {
        if faults_contain(&self.principal_write_faults, principal, node.permission.as_str()) {
            return Err(StoreError);
        }
        proof {
            lemma_upsert_wf(self.principals(), principal@, node@);
        }
        rows_upsert(&mut self.principal_rows, principal, node);
        Ok(())
    }

    /// Deletes the role-side key (role, pattern); a no-op when the key is
    /// absent. Fails, leaving the store unchanged, exactly when the key is
    /// marked faulted.
    pub fn delete_role_node(&mut self, role: &str, pattern: &str) -> (r: Result<(), StoreError>)
        requires
            old(self).wf(),
        ensures
            final(self).wf(),
            final(self).principals() == old(self).principals(),
            final(self).role_faults() == old(self).role_faults(),
            final(self).principal_faults() == old(self).principal_faults(),
            r is Ok <==> !key_faulted(old(self).role_faults(), role@, pattern@),
            r is Ok ==> final(self).roles() == spec_remove(old(self).roles(), role@, pattern@),
            r is Err ==> final(self).roles() == old(self).roles(),
    {
        if faults_contain(&self.role_write_faults, role, pattern) {
            return Err(StoreError);
        }
        proof {
            lemma_remove_wf(self.roles(), role@, pattern@);
        }
        rows_remove(&mut self.role_rows, role, pattern);
        Ok(())
    }

    /// Deletes the principal-side key (principal, pattern), as
    /// [`Self::delete_role_node`] does on the role side.
    pub fn delete_principal_node(&mut self, principal: &str, pattern: &str) -> (r: Result<
        (),
        StoreError,
    >)
        requires
            old(self).wf(),
        ensures
            final(self).wf(),
            final(self).roles() == old(self).roles(),
            final(self).role_faults() == old(self).role_faults(),
            final(self).principal_faults() == old(self).principal_faults(),
            r is Ok <==> !key_faulted(old(self).principal_faults(), principal@, pattern@),
            r is Ok ==> final(self).principals() == spec_remove(
                old(self).principals(),
                principal@,
                pattern@,
            ),
            r is Err ==> final(self).principals() == old(self).principals(),
    {
        if faults_contain(&self.principal_write_faults, principal, pattern) {
            return Err(StoreError);
        }
        proof {
            lemma_remove_wf(self.principals(), principal@, pattern@);
        }
        rows_remove(&mut self.principal_rows, principal, pattern);
        Ok(())
    }

    /// Deletes every role-owned node of `role` in one pass: the
    /// overwrite-delete step of bulk application.
    pub fn clear_role_nodes(&mut self, role: &str)
        requires
            old(self).wf(),
        ensures
            final(self).wf(),
            final(self).roles() == rows_without_owner(old(self).roles(), role@),
            final(self).principals() == old(self).principals(),
            final(self).role_faults() == old(self).role_faults(),
            final(self).principal_faults() == old(self).principal_faults(),
    {
        proof {
            lemma_filter_wf(self.roles(), owner_is_not(role@));
        }
        let kept = rows_keep_other_owners(&self.role_rows, role);
        self.role_rows = kept;
    }

    /// Deletes every principal-owned node of `principal` in one pass, as
    /// [`Self::clear_role_nodes`] does on the role side.
    pub fn clear_principal_nodes(&mut self, principal: &str)
        requires
            old(self).wf(),
        ensures
            final(self).wf(),
            final(self).principals() == rows_without_owner(old(self).principals(), principal@),
            final(self).roles() == old(self).roles(),
            final(self).role_faults() == old(self).role_faults(),
            final(self).principal_faults() == old(self).principal_faults(),
    {
        proof {
            lemma_filter_wf(self.principals(), owner_is_not(principal@));
        }
        let kept = rows_keep_other_owners(&self.principal_rows, principal);
        self.principal_rows = kept;
    }
}

/// Whether a row does not belong to `owner`.
pub open spec fn owner_is_not(owner: Seq<char>) -> spec_fn(RowView) -> bool {
    |r: RowView| r.owner != owner
}

/// The rows with every row of `owner` deleted.
pub open spec fn rows_without_owner(rows: Seq<RowView>, owner: Seq<char>) -> Seq<RowView> {
    rows.filter(owner_is_not(owner))
}

/// Filtering keeps keys unique and patterns non-empty.
pub proof fn lemma_filter_wf(rows: Seq<RowView>, pred: spec_fn(RowView) -> bool)
    requires
        keys_unique(rows),
        patterns_nonempty(rows),
    ensures
        keys_unique(rows.filter(pred)),
        patterns_nonempty(rows.filter(pred)),
    decreases rows.len(),
{
    reveal(Seq::filter);
    broadcast use vstd::seq_lib::group_filter_ensures;

    if rows.len() > 0 {
        assert(forall|j: int| 0 <= j < rows.len() - 1 ==> rows.drop_last()[j] == rows[j]);
        lemma_filter_wf(rows.drop_last(), pred);
        let fp = rows.drop_last().filter(pred);
        if pred(rows.last()) {
            let f = rows.filter(pred);
            assert(f == fp.push(rows.last()));
            assert forall|x: int, y: int|
                #![trigger f[x], f[y]]
                0 <= x < y < f.len() implies !row_has_key(f[x], f[y].owner, f[y].node.pattern) by {
                if y < f.len() - 1 {
                    assert(f[x] == fp[x] && f[y] == fp[y]);
                } else {
                    assert(f[x] == fp[x]);
                    lemma_filter_in_source(rows.drop_last(), pred, x);
                    let q = choose|q: int|
                        0 <= q < rows.drop_last().len() && #[trigger] rows.drop_last()[q] == fp[x];
                    assert(rows[q] == fp[x]);
                    assert(!row_has_key(
                        rows[q],
                        rows[rows.len() - 1].owner,
                        rows[rows.len() - 1].node.pattern,
                    ));
                }
            }
            assert forall|x: int| 0 <= x < f.len() implies (#[trigger] f[x]).node.pattern.len()
                > 0 by {
                if x < f.len() - 1 {
                    assert(f[x] == fp[x]);
                } else {
                    assert(f[x] == rows.last());
                }
            }
        }
    }
}

/// An upsert preserves well-formedness: the written pattern must be
/// non-empty, keys stay unique whether the row was replaced or appended.
pub proof fn lemma_upsert_wf(rows: Seq<RowView>, owner: Seq<char>, node: NodeView)
    requires
        keys_unique(rows),
        patterns_nonempty(rows),
        node.pattern.len() > 0,
    ensures
        keys_unique(spec_upsert(rows, owner, node)),
        patterns_nonempty(spec_upsert(rows, owner, node)),
{
    lemma_find_key(rows, owner, node.pattern);
}

/// After an upsert on rows with unique keys, the written key's row stands at
/// the index `find_key` reports for it.
proof fn lemma_find_key_update_same(
    rows: Seq<RowView>,
    i: int,
    row: RowView,
    owner: Seq<char>,
    pattern: Seq<char>,
)
    requires
        0 <= i < rows.len(),
        row_has_key(row, owner, pattern),
        forall|j: int| i < j < rows.len() ==> !row_has_key(#[trigger] rows[j], owner, pattern),
    ensures
        find_key(rows.update(i, row), owner, pattern) == i,
    decreases rows.len(),
{
    let u = rows.update(i, row);
    if i == rows.len() - 1 {
        assert(u.last() == row);
    } else {
        assert(u.last() == rows.last());
        assert(!row_has_key(u.last(), owner, pattern));
        assert(u.drop_last() =~= rows.drop_last().update(i, row));
        lemma_find_key_update_same(rows.drop_last(), i, row, owner, pattern);
    }
}

/// Law: writes are idempotent per key. Repeating an identical upsert leaves
/// the rows exactly as one upsert leaves them; after the upsert the key holds
/// exactly the written node, and keys stay unique, so exactly one row carries
/// the key.
pub proof fn lemma_upsert_idempotent(rows: Seq<RowView>, owner: Seq<char>, node: NodeView)
    requires
        keys_unique(rows),
    ensures
        spec_upsert(spec_upsert(rows, owner, node), owner, node) == spec_upsert(rows, owner, node),
        lookup(spec_upsert(rows, owner, node), owner, node.pattern) == Some(node),
        keys_unique(spec_upsert(rows, owner, node)),
{
    lemma_find_key(rows, owner, node.pattern);
    let row = RowView { owner, node };
    let i = find_key(rows, owner, node.pattern);
    let u = spec_upsert(rows, owner, node);
    if i >= 0 {
        lemma_find_key_update_same(rows, i, row, owner, node.pattern);
        assert(find_key(u, owner, node.pattern) == i);
        assert(u[i] == row);
        assert forall|x: int, y: int|
            #![trigger u[x], u[y]]
            0 <= x < y < u.len() implies !row_has_key(u[x], u[y].owner, u[y].node.pattern) by {
            if x != i {
                assert(u[x] == rows[x]);
            }
            if y != i {
                assert(u[y] == rows[y]);
            }
            if x == i {
                assert(!row_has_key(rows[y], owner, node.pattern));
            }
            if y == i {
                assert(!row_has_key(rows[x], owner, node.pattern));
            }
        }
        assert(spec_upsert(u, owner, node) =~= u.update(i, row));
        assert(u.update(i, row) =~= u);
    } else {
        assert(u.last() == row);
        assert(find_key(u, owner, node.pattern) == u.len() - 1);
        assert(u[u.len() - 1] == row);
        assert forall|x: int, y: int|
            #![trigger u[x], u[y]]
            0 <= x < y < u.len() implies !row_has_key(u[x], u[y].owner, u[y].node.pattern) by {
            assert(u[x] == rows[x]);
            if y < u.len() - 1 {
                assert(u[y] == rows[y]);
            } else {
                assert(!row_has_key(rows[x], owner, node.pattern));
            }
        }
        assert(spec_upsert(u, owner, node) =~= u.update(u.len() - 1, row));
        assert(u.update(u.len() - 1, row) =~= u);
    }
}

/// What one upsert does to the rows, positionally: rows without the written
/// key keep their index, the written node is present, and every row of the
/// result is an old row or the written one.
pub proof fn lemma_upsert_effect(rows: Seq<RowView>, owner: Seq<char>, node: NodeView)
    requires
        keys_unique(rows),
    ensures
        rows.len() <= spec_upsert(rows, owner, node).len() <= rows.len() + 1,
        forall|q: int|
            0 <= q < rows.len() && !row_has_key(#[trigger] rows[q], owner, node.pattern)
                ==> spec_upsert(rows, owner, node)[q] == rows[q],
        exists|r: int|
            0 <= r < spec_upsert(rows, owner, node).len() && spec_upsert(rows, owner, node)[r]
                == (RowView { owner, node }),
        forall|r: int|
            0 <= r < spec_upsert(rows, owner, node).len() ==> (#[trigger] spec_upsert(
                rows,
                owner,
                node,
            )[r] == (RowView { owner, node }) || (0 <= r < rows.len() && spec_upsert(
                rows,
                owner,
                node,
            )[r] == rows[r])),
{
    lemma_find_key(rows, owner, node.pattern);
    let row = RowView { owner, node };
    let i = find_key(rows, owner, node.pattern);
    let u = spec_upsert(rows, owner, node);
    if i >= 0 {
        assert(u[i] == row);
    } else {
        assert(u[rows.len() as int] == row);
    }
}

/// Every element of a filtered sequence is an element of the source.
pub proof fn lemma_filter_in_source<A>(s: Seq<A>, pred: spec_fn(A) -> bool, i: int)
    requires
        0 <= i < s.filter(pred).len(),
    ensures
        exists|q: int| 0 <= q < s.len() && #[trigger] s[q] == s.filter(pred)[i],
    decreases s.len(),
{
    reveal(Seq::filter);
    if s.len() > 0 {
        let f = s.filter(pred);
        let fp = s.drop_last().filter(pred);
        if pred(s.last()) {
            if i < f.len() - 1 {
                lemma_filter_in_source(s.drop_last(), pred, i);
                let q = choose|q: int|
                    0 <= q < s.drop_last().len() && #[trigger] s.drop_last()[q] == fp[i];
                assert(s[q] == f[i]);
            } else {
                assert(s[s.len() - 1] == f[i]);
            }
        } else {
            lemma_filter_in_source(s.drop_last(), pred, i);
            let q = choose|q: int|
                0 <= q < s.drop_last().len() && #[trigger] s.drop_last()[q] == fp[i];
            assert(s[q] == f[i]);
        }
    }
}

/// Some row of `owner` holds exactly `node`.
pub open spec fn row_with_node(rows: Seq<RowView>, owner: Seq<char>, node: NodeView) -> bool {
    exists|q: int|
        #![trigger rows[q]]
        0 <= q < rows.len() && rows[q].owner == owner && rows[q].node == node
}

/// The owner's listing holds exactly `node` somewhere.
pub open spec fn listed_node(rows: Seq<RowView>, owner: Seq<char>, node: NodeView) -> bool {
    exists|i: int|
        #![trigger nodes_for_owner(rows, owner)[i]]
        0 <= i < nodes_for_owner(rows, owner).len() && nodes_for_owner(rows, owner)[i] == node
}

/// The nodes listed for an owner are exactly the nodes of that owner's rows:
/// each listed node comes from a row of the owner, and each row of the owner
/// is listed.
pub proof fn lemma_nodes_for_owner_members(rows: Seq<RowView>, owner: Seq<char>)
    ensures
        forall|i: int|
            #![trigger nodes_for_owner(rows, owner)[i]]
            0 <= i < nodes_for_owner(rows, owner).len() ==> row_with_node(
                rows,
                owner,
                nodes_for_owner(rows, owner)[i],
            ),
        forall|q: int|
            #![trigger rows[q]]
            0 <= q < rows.len() && rows[q].owner == owner ==> listed_node(
                rows,
                owner,
                rows[q].node,
            ),
{
    broadcast use vstd::seq_lib::group_filter_ensures;

    let pred = owner_is(owner);
    let f = rows.filter(pred);
    assert forall|i: int|
        #![trigger nodes_for_owner(rows, owner)[i]]
        0 <= i < nodes_for_owner(rows, owner).len() implies row_with_node(
        rows,
        owner,
        nodes_for_owner(rows, owner)[i],
    ) by {
        lemma_filter_in_source(rows, pred, i);
        let q = choose|q: int| 0 <= q < rows.len() && #[trigger] rows[q] == f[i];
        assert(pred(f[i]));
        assert(rows[q].owner == owner);
        assert(nodes_for_owner(rows, owner)[i] == f[i].node);
        assert(rows[q].node == nodes_for_owner(rows, owner)[i]);
    }
    assert forall|q: int|
        #![trigger rows[q]]
        0 <= q < rows.len() && rows[q].owner == owner implies listed_node(
        rows,
        owner,
        rows[q].node,
    ) by {
        assert(pred(rows[q]));
        assert(f.contains(rows[q]));
        let i = choose|i: int| 0 <= i < f.len() && f[i] == rows[q];
        assert(nodes_for_owner(rows, owner)[i] == rows[q].node);
    }
}

/// A remove preserves well-formedness.
pub proof fn lemma_remove_wf(rows: Seq<RowView>, owner: Seq<char>, pattern: Seq<char>)
    requires
        keys_unique(rows),
        patterns_nonempty(rows),
    ensures
        keys_unique(spec_remove(rows, owner, pattern)),
        patterns_nonempty(spec_remove(rows, owner, pattern)),
{
    lemma_find_key(rows, owner, pattern);
}

} // verus!
