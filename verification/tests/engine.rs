//! Pattern matching, resolution and policy mutation.

use school_core::identity::IdentityDirectory;
use school_core::manager::{check_user_permission, AuthError, PermissionManager};
use school_core::node::{PermissionNode, PermissionResult};
use school_core::store::PolicyStore;

fn manager_with(principal: &str, role: &str) -> PermissionManager {
    let store = PolicyStore::new();
    let mut directory = IdentityDirectory::new();
    directory.set_role(principal, role);
    PermissionManager::new(store, directory)
}

#[test]
fn wildcard_matches_one_segment() {
    assert!(school_core::pattern::matches("class.*", "class.view"));
    assert!(!school_core::pattern::matches("class.*", "class.view.detail"));
    assert!(school_core::pattern::matches("*", "admin"));
    assert!(!school_core::pattern::matches("*", "a.b"));
}

#[test]
fn literal_segments_match_pairwise() {
    assert!(school_core::pattern::matches("class.view", "class.view"));
    assert!(school_core::pattern::matches("a.*.c", "a.b.c"));
    assert!(!school_core::pattern::matches("a.*.c", "a.b.d"));
    assert!(!school_core::pattern::matches("class.*", "class"));
    assert!(!school_core::pattern::matches("class", "class.view"));
    assert!(school_core::pattern::matches("", ""));
    assert!(!school_core::pattern::matches("a..b", "a.b"));
    assert!(school_core::pattern::matches("a..b", "a..b"));
}

#[test]
fn higher_priority_wins_over_ownership() {
    let mut m = manager_with("p1", "teacher");
    m.add_role_permission("teacher", "x.y", false, 5).unwrap();
    m.add_user_permission("p1", "x.y", true, 10).unwrap();
    assert_eq!(m.check_permission("p1", "x.y"), PermissionResult::Allowed);
}

#[test]
fn equal_priority_tie_falls_to_role_node() {
    let mut m = manager_with("p1", "teacher");
    m.add_role_permission("teacher", "x.y", false, 5).unwrap();
    m.add_user_permission("p1", "x.y", true, 5).unwrap();
    assert_eq!(m.check_permission("p1", "x.y"), PermissionResult::Denied);
}

#[test]
fn equal_priority_tie_is_deterministic() {
    for _ in 0..3 {
        let mut m = manager_with("p1", "teacher");
        m.add_user_permission("p1", "a.*", true, 7).unwrap();
        m.add_user_permission("p1", "a.b", false, 7).unwrap();
        assert_eq!(m.check_permission("p1", "a.b"), PermissionResult::Allowed);
    }
}

#[test]
fn no_matching_node_is_not_set_and_require_rejects() {
    let mut m = manager_with("p1", "teacher");
    m.add_role_permission("teacher", "class.view", true, 1).unwrap();
    assert_eq!(m.check_permission("p1", "score.view"), PermissionResult::NotSet);
    assert_eq!(m.require_permission("p1", "score.view"), Err(AuthError::NotSet));
    assert!(!check_user_permission(&m, "p1", "score.view"));
}

#[test]
fn explicit_deny_rejects_with_denied() {
    let mut m = manager_with("p1", "teacher");
    m.add_role_permission("teacher", "score.*", false, 3).unwrap();
    assert_eq!(m.require_permission("p1", "score.view"), Err(AuthError::Denied));
    assert_eq!(m.require_permission("p1", "score.view.own"), Err(AuthError::NotSet));
}

#[test]
fn unknown_principal_resolves_not_set() {
    let m = manager_with("p1", "teacher");
    assert_eq!(m.check_permission("nobody", "class.view"), PermissionResult::NotSet);
    assert!(m.get_user_permissions_list("nobody").is_err());
}

#[test]
fn repeated_identical_upsert_leaves_one_node() {
    let mut m = manager_with("p1", "teacher");
    m.add_role_permission("teacher", "class.view", true, 4).unwrap();
    m.add_role_permission("teacher", "class.view", true, 4).unwrap();
    let nodes = m.get_role_permissions("teacher");
    assert_eq!(nodes.len(), 1);
    assert_eq!(nodes[0].permission, "class.view");
    assert!(nodes[0].value);
    assert_eq!(nodes[0].priority, 4);
}

#[test]
fn upsert_fully_replaces_value_and_priority() {
    let mut m = manager_with("p1", "teacher");
    m.add_role_permission("teacher", "class.view", true, 4).unwrap();
    m.add_role_permission("teacher", "class.view", false, 9).unwrap();
    let nodes = m.get_role_permissions("teacher");
    assert_eq!(nodes.len(), 1);
    assert!(!nodes[0].value);
    assert_eq!(nodes[0].priority, 9);
}

#[test]
fn remove_is_a_no_op_on_a_missing_key() {
    let mut m = manager_with("p1", "teacher");
    m.add_role_permission("teacher", "class.view", true, 4).unwrap();
    m.remove_role_permission("teacher", "absent.key").unwrap();
    assert_eq!(m.get_role_permissions("teacher").len(), 1);
    m.remove_role_permission("teacher", "class.view").unwrap();
    assert_eq!(m.get_role_permissions("teacher").len(), 0);
}

#[test]
fn empty_pattern_is_rejected() {
    let mut m = manager_with("p1", "teacher");
    assert!(m.add_role_permission("teacher", "", true, 1).is_err());
    assert!(m.add_user_permission("p1", "", true, 1).is_err());
    assert_eq!(m.get_role_permissions("teacher").len(), 0);
}

#[test]
fn effective_permissions_keep_wildcards_literal_and_deduplicate() {
    let mut m = manager_with("p1", "teacher");
    m.add_role_permission("teacher", "class.*", true, 1).unwrap();
    m.add_role_permission("teacher", "score.view", false, 1).unwrap();
    m.add_user_permission("p1", "class.*", true, 8).unwrap();
    m.add_user_permission("p1", "notice.view", true, 2).unwrap();
    let mut list = m.get_user_permissions_list("p1").unwrap();
    list.sort();
    assert_eq!(list, vec!["class.*".to_string(), "notice.view".to_string()]);
}

#[test]
fn from_string_strips_a_leading_dash_into_a_deny() {
    let node = PermissionNode::from_string("-score.delete", 5);
    assert_eq!(node.permission, "score.delete");
    assert!(!node.value);
    assert_eq!(node.priority, 5);
    let node = PermissionNode::from_string("score.view", 2);
    assert_eq!(node.permission, "score.view");
    assert!(node.value);
}

#[test]
fn node_matches_its_own_pattern() {
    let node = PermissionNode::new("class.*", true, 1);
    assert!(node.matches("class.view"));
    assert!(!node.matches("class.view.detail"));
    assert!(node.permission_matches_pattern("a.b", "a.b"));
}

#[test]
fn faulted_write_fails_and_leaves_the_store_unchanged() {
    let mut m = manager_with("p1", "teacher");
    m.store.add_role_write_fault("teacher", "class.view");
    assert!(m.add_role_permission("teacher", "class.view", true, 1).is_err());
    assert_eq!(m.get_role_permissions("teacher").len(), 0);
    m.store.clear_write_faults();
    assert!(m.add_role_permission("teacher", "class.view", true, 1).is_ok());
    assert_eq!(m.get_role_permissions("teacher").len(), 1);
}
