//! The permission manager: resolution and policy mutation over one store and
//! one identity directory.

use vstd::prelude::*;

use crate::identity::IdentityDirectory;
use crate::node::{NodeView, PermissionNode, PermissionResult};
use crate::resolver::{allowed_pattern_set, evaluate_permission, node_views, spec_evaluate};
use crate::store::{key_faulted, nodes_for_owner, spec_remove, spec_upsert, PolicyStore, StoreError};

verus! {

/// Why `require_permission` rejected: an explicit deny won, or no policy
/// matched at all. Both are fail-closed rejections for the caller; the
/// distinction is diagnostic only.
#[derive(Debug, PartialEq, Eq, Structural, Clone, Copy)]
pub enum AuthError {
    Denied,
    NotSet,
}

/// Why a policy write was refused: the pattern was empty, or the store's
/// write for the key failed.
#[derive(Debug, PartialEq, Eq, Structural, Clone, Copy)]
pub enum PolicyWriteError {
    EmptyPattern,
    Store(StoreError),
}

/// The principal is unknown to the identity directory.
#[derive(Debug, PartialEq, Eq, Structural, Clone, Copy)]
pub struct UnknownPrincipal;

/// The permission manager: policy store plus identity directory. Resolution
/// reads both; mutation writes single keys of the store.
pub struct PermissionManager {
    pub store: PolicyStore,
    pub directory: IdentityDirectory,
}

impl PermissionManager {
    /// Well-formedness of both collaborators.
    pub open spec fn wf(self) -> bool {
        self.store.wf() && self.directory.wf()
    }

    /// The merged node sequence consulted for `principal` under `role`:
    /// role-owned nodes first, principal-owned nodes after them.
    pub open spec fn merged_for(self, principal: Seq<char>, role: Seq<char>) -> Seq<NodeView> {
        nodes_for_owner(self.store.roles(), role) + nodes_for_owner(
            self.store.principals(),
            principal,
        )
    }

    /// The decision for `principal` and `permission`: `NotSet` when the
    /// principal is unknown, otherwise the evaluation of the merged nodes.
    pub open spec fn spec_check(self, principal: Seq<char>, permission: Seq<char>) -> PermissionResult {
        match self.directory.role_of(principal) {
            Option::None => PermissionResult::NotSet,
            Option::Some(role) => spec_evaluate(self.merged_for(principal, role), permission),
        }
    }

    /// A manager over the given store and directory.
    pub fn new(store: PolicyStore, directory: IdentityDirectory) -> (m: Self)
        ensures
            m.store == store,
            m.directory == directory,
    {
        PermissionManager { store, directory }
    }

    /// The merged nodes for `principal` under `role`: the role's nodes, then
    /// the principal's own.
    pub fn get_user_effective_permissions(&self, principal: &str, role: &str) -> (nodes: Vec<
        PermissionNode,
    >)
        ensures
            node_views(nodes@) == self.merged_for(principal@, role@),
    {
        let mut nodes = self.store.get_role_nodes(role);
        let mut user = self.store.get_principal_nodes(principal);
        let ghost role_part = nodes@;
        let ghost user_part = user@;
        nodes.append(&mut user);
        proof {
            assert(node_views(nodes@) =~= node_views(role_part) + node_views(user_part));
        }
        nodes
    }

    /// The role-owned nodes of `role`, in stored order.
    pub fn get_role_permissions(&self, role: &str) -> (nodes: Vec<PermissionNode>)
        ensures
            node_views(nodes@) == nodes_for_owner(self.store.roles(), role@),
    {
        self.store.get_role_nodes(role)
    }

    /// The principal-owned nodes of `principal`, in stored order.
    pub fn get_user_specific_permissions(&self, principal: &str) -> (nodes: Vec<PermissionNode>)
        ensures
            node_views(nodes@) == nodes_for_owner(self.store.principals(), principal@),
    {
        self.store.get_principal_nodes(principal)
    }

    /// Resolves `permission` for `principal`: `NotSet` when the principal is
    /// unknown, otherwise the highest-priority matching node of the merged
    /// role and principal nodes decides.
    pub fn check_permission(&self, principal: &str, permission: &str) -> (r: PermissionResult)
        ensures
            r == self.spec_check(principal@, permission@),
    {
        let role = match self.directory.get_role(principal) {
            Option::None => {
                return PermissionResult::NotSet;
            },
            Option::Some(role) => role,
        };
        let nodes = self.get_user_effective_permissions(principal, role.as_str());
        evaluate_permission(&nodes, permission)
    }

    /// Requires `permission` for `principal`: both an explicit deny and a
    /// complete absence of matching policy reject, fail-closed.
    pub fn require_permission(&self, principal: &str, permission: &str) -> (r: Result<
        (),
        AuthError,
    >)
        ensures
            r is Ok <==> self.spec_check(principal@, permission@) == PermissionResult::Allowed,
            r == Err::<(), AuthError>(AuthError::Denied) <==> self.spec_check(
                principal@,
                permission@,
            ) == PermissionResult::Denied,
            r == Err::<(), AuthError>(AuthError::NotSet) <==> self.spec_check(
                principal@,
                permission@,
            ) == PermissionResult::NotSet,
    {
        match self.check_permission(principal, permission) {
            PermissionResult::Allowed => Ok(()),
            PermissionResult::Denied => Err(AuthError::Denied),
            PermissionResult::NotSet => Err(AuthError::NotSet),
        }
    }

    /// Writes the role-owned node (role, permission) with the given value and
    /// priority, fully replacing any earlier node under that key. Fails on an
    /// empty pattern, or when the store's write for the key fails; the store
    /// is then unchanged.
    pub fn add_role_permission(
        &mut self,
        role: &str,
        permission: &str,
        value: bool,
        priority: i32,
    ) -> (r: Result<(), PolicyWriteError>)
        requires
            old(self).wf(),
        ensures
            final(self).wf(),
            final(self).directory == old(self).directory,
            final(self).store.principals() == old(self).store.principals(),
            final(self).store.role_faults() == old(self).store.role_faults(),
            final(self).store.principal_faults() == old(self).store.principal_faults(),
            r is Ok <==> (permission@.len() > 0 && !key_faulted(
                old(self).store.role_faults(),
                role@,
                permission@,
            )),
            r == Err::<(), PolicyWriteError>(PolicyWriteError::EmptyPattern) <==> permission@.len()
                == 0,
            r is Ok ==> final(self).store.roles() == spec_upsert(
                old(self).store.roles(),
                role@,
                NodeView { pattern: permission@, value, priority: priority as int },
            ),
            r is Err ==> final(self).store.roles() == old(self).store.roles(),
    {
        if permission.unicode_len() == 0 {
            return Err(PolicyWriteError::EmptyPattern);
        }
        let node = PermissionNode::new(permission, value, priority);
        match self.store.upsert_role_node(role, node) {
            Ok(()) => Ok(()),
            Err(e) => Err(PolicyWriteError::Store(e)),
        }
    }

    /// Deletes the role-owned node keyed (role, permission); a no-op when the
    /// key is absent. Fails only when the store's write for the key fails.
    pub fn remove_role_permission(&mut self, role: &str, permission: &str) -> (r: Result<
        (),
        StoreError,
    >)
        requires
            old(self).wf(),
        ensures
            final(self).wf(),
            final(self).directory == old(self).directory,
            final(self).store.principals() == old(self).store.principals(),
            final(self).store.role_faults() == old(self).store.role_faults(),
            final(self).store.principal_faults() == old(self).store.principal_faults(),
            r is Ok <==> !key_faulted(old(self).store.role_faults(), role@, permission@),
            r is Ok ==> final(self).store.roles() == spec_remove(
                old(self).store.roles(),
                role@,
                permission@,
            ),
            r is Err ==> final(self).store.roles() == old(self).store.roles(),
    {
        self.store.delete_role_node(role, permission)
    }

    /// Writes the principal-owned node (principal, permission), as
    /// [`Self::add_role_permission`] does on the role side.
    pub fn add_user_permission(
        &mut self,
        principal: &str,
        permission: &str,
        value: bool,
        priority: i32,
    ) -> (r: Result<(), PolicyWriteError>)
        requires
            old(self).wf(),
        ensures
            final(self).wf(),
            final(self).directory == old(self).directory,
            final(self).store.roles() == old(self).store.roles(),
            final(self).store.role_faults() == old(self).store.role_faults(),
            final(self).store.principal_faults() == old(self).store.principal_faults(),
            r is Ok <==> (permission@.len() > 0 && !key_faulted(
                old(self).store.principal_faults(),
                principal@,
                permission@,
            )),
            r == Err::<(), PolicyWriteError>(PolicyWriteError::EmptyPattern) <==> permission@.len()
                == 0,
            r is Ok ==> final(self).store.principals() == spec_upsert(
                old(self).store.principals(),
                principal@,
                NodeView { pattern: permission@, value, priority: priority as int },
            ),
            r is Err ==> final(self).store.principals() == old(self).store.principals(),
    {
        if permission.unicode_len() == 0 {
            return Err(PolicyWriteError::EmptyPattern);
        }
        let node = PermissionNode::new(permission, value, priority);
        match self.store.upsert_principal_node(principal, node) {
            Ok(()) => Ok(()),
            Err(e) => Err(PolicyWriteError::Store(e)),
        }
    }

    /// Deletes the principal-owned node keyed (principal, permission), as
    /// [`Self::remove_role_permission`] does on the role side.
    pub fn remove_user_permission(&mut self, principal: &str, permission: &str) -> (r: Result<
        (),
        StoreError,
    >)
        requires
            old(self).wf(),
        ensures
            final(self).wf(),
            final(self).directory == old(self).directory,
            final(self).store.roles() == old(self).store.roles(),
            final(self).store.role_faults() == old(self).store.role_faults(),
            final(self).store.principal_faults() == old(self).store.principal_faults(),
            r is Ok <==> !key_faulted(old(self).store.principal_faults(), principal@, permission@),
            r is Ok ==> final(self).store.principals() == spec_remove(
                old(self).store.principals(),
                principal@,
                permission@,
            ),
            r is Err ==> final(self).store.principals() == old(self).store.principals(),
    {
        self.store.delete_principal_node(principal, permission)
    }

    /// The effective permission list of `principal`: the pattern of every
    /// allowing node in the merged role and principal nodes, each pattern
    /// once, wildcard patterns kept literally and never expanded. Fails
    /// exactly when the principal is unknown.
    pub fn get_user_permissions_list(&self, principal: &str) -> (r: Result<
        Vec<String>,
        UnknownPrincipal,
    >)
        ensures
            r is Ok <==> self.directory.role_of(principal@) is Some,
            r matches Ok(list) ==> {
                let merged = self.merged_for(
                    principal@,
                    self.directory.role_of(principal@).unwrap(),
                );
                &&& list@.map_values(|s: String| s@).to_set() == allowed_pattern_set(merged)
                &&& forall|m1: int, m2: int|
                    0 <= m1 < m2 < list@.len() ==> list@[m1]@ != list@[m2]@
            },
    {
        let role = match self.directory.get_role(principal) {
            Option::None => {
                return Err(UnknownPrincipal);
            },
            Option::Some(role) => role,
        };
        let nodes = self.get_user_effective_permissions(principal, role.as_str());
        let list = crate::resolver::allowed_patterns_dedup(&nodes);
        Ok(list)
    }
}


/// Whether `principal` resolves to `Allowed` for `permission`; any other
/// outcome, an explicit deny or no policy at all, yields `false`.
pub fn check_user_permission(manager: &PermissionManager, principal: &str, permission: &str) -> (r:
    bool)
    ensures
        r == (manager.spec_check(principal@, permission@) == PermissionResult::Allowed),
{
    match manager.check_permission(principal, permission) {
        PermissionResult::Allowed => true,
        _ => false,
    }
}

/// The effective permission list of `principal`, as
/// [`PermissionManager::get_user_permissions_list`] reports it.
pub fn get_user_permissions(manager: &PermissionManager, principal: &str) -> (r: Result<
    Vec<String>,
    UnknownPrincipal,
>)
    ensures
        r is Ok <==> manager.directory.role_of(principal@) is Some,
        r matches Ok(list) ==> {
            let merged = manager.merged_for(
                principal@,
                manager.directory.role_of(principal@).unwrap(),
            );
            &&& list@.map_values(|s: String| s@).to_set() == allowed_pattern_set(merged)
            &&& forall|m1: int, m2: int|
                0 <= m1 < m2 < list@.len() ==> list@[m1]@ != list@[m2]@
        },
{
    manager.get_user_permissions_list(principal)
}

/// Law: with zero matching nodes the resolution for a principal is `NotSet`,
/// and `require_permission`, whose contract returns `Err(AuthError::NotSet)`
/// exactly on that decision, therefore rejects.
pub proof fn lemma_no_match_rejects(m: PermissionManager, principal: Seq<char>, permission: Seq<char>)
    requires
        m.directory.role_of(principal) matches Some(role) ==> forall|k: int|
            0 <= k < m.merged_for(principal, role).len() ==> !crate::pattern::pattern_matches(
                (#[trigger] m.merged_for(principal, role)[k]).pattern,
                permission,
            ),
    ensures
        m.spec_check(principal, permission) == PermissionResult::NotSet,
{
    match m.directory.role_of(principal) {
        Option::None => {},
        Option::Some(role) => {
            crate::resolver::lemma_no_match_not_set(m.merged_for(principal, role), permission);
        },
    }
}

} // verus!
