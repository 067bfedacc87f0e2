//! Template documents and resource-scoped grants.

use school_core::identity::IdentityDirectory;
use school_core::manager::PermissionManager;
use school_core::node::PermissionResult;
use school_core::scoped::scoped_suffix;
use school_core::store::PolicyStore;
use school_core::template::{
    apply_template, apply_yaml_template, normalize_template_text, ApplyTarget, MergeStrategy,
    PermissionTemplate,
};

fn manager_with(principal: &str, role: &str) -> PermissionManager {
    let store = PolicyStore::new();
    let mut directory = IdentityDirectory::new();
    directory.set_role(principal, role);
    PermissionManager::new(store, directory)
}

const DOC: &str = "permissions:\n  - permission: score.view\n    priority: 1\n  - permission: -score.delete\n    priority: 5\n";

#[test]
fn negated_entry_becomes_a_denying_node() {
    let template = PermissionTemplate::from_yaml_str(DOC).unwrap();
    assert_eq!(template.permissions.len(), 2);
    assert_eq!(template.permissions[1].permission, "-score.delete");
    assert_eq!(template.permissions[1].priority, 5);
    let mut m = manager_with("p1", "teacher");
    template.apply_to_role(&mut m, "teacher");
    let nodes = m.get_role_permissions("teacher");
    assert_eq!(nodes.len(), 2);
    assert_eq!(nodes[1].permission, "score.delete");
    assert!(!nodes[1].value);
    assert_eq!(nodes[1].priority, 5);
}

#[test]
fn unquoted_wildcard_value_survives_normalization() {
    let doc = "permissions:\n  - permission: *\n    priority: 1\n";
    let template = PermissionTemplate::from_yaml_str(doc).unwrap();
    assert_eq!(template.permissions.len(), 1);
    assert_eq!(template.permissions[0].permission, "*");
    let mut m = manager_with("p1", "teacher");
    template.apply_to_role(&mut m, "teacher");
    let nodes = m.get_role_permissions("teacher");
    assert_eq!(nodes[0].permission, "*");
    assert_eq!(m.check_permission("p1", "anything"), PermissionResult::Allowed);
}

#[test]
fn already_quoted_wildcard_passes_through_unchanged() {
    let doc = "permissions:\n  - permission: \"*\"\n    priority: 1\n";
    assert_eq!(normalize_template_text(doc), doc);
    let template = PermissionTemplate::from_yaml_str(doc).unwrap();
    assert_eq!(template.permissions[0].permission, "*");
}

#[test]
fn malformed_documents_are_rejected_before_any_write() {
    assert!(PermissionTemplate::from_yaml_str("permissions: 3").is_err());
    assert!(PermissionTemplate::from_yaml_str("nothing: here").is_err());
    assert!(PermissionTemplate::from_yaml_str(
        "permissions:\n  - permission: x\n    priority: not_a_number\n"
    )
    .is_err());
    // a permission that is empty once the deny prefix is stripped
    assert!(PermissionTemplate::from_yaml_str(
        "permissions:\n  - permission: \"-\"\n    priority: 1\n"
    )
    .is_err());
    let mut m = manager_with("p1", "teacher");
    let r = apply_yaml_template(
        &mut m,
        "permissions: [",
        &ApplyTarget::Role("teacher".to_string()),
        MergeStrategy::Merge,
    );
    assert!(r.is_err());
    assert_eq!(m.get_role_permissions("teacher").len(), 0);
}

#[test]
fn fan_out_tolerates_one_failing_principal() {
    let mut m = manager_with("p1", "teacher");
    m.directory.set_role("p2", "teacher");
    m.directory.set_role("p3", "teacher");
    m.store.add_principal_write_fault("p2", "score.view");
    m.store.add_principal_write_fault("p2", "score.delete");
    let template = PermissionTemplate::from_yaml_str(DOC).unwrap();
    let principals = vec!["p1".to_string(), "p2".to_string(), "p3".to_string()];
    let succeeded = template.apply_to_principals(&mut m, &principals);
    assert_eq!(succeeded, 2);
    assert_eq!(m.get_user_specific_permissions("p1").len(), 2);
    assert_eq!(m.get_user_specific_permissions("p2").len(), 0);
    assert_eq!(m.get_user_specific_permissions("p3").len(), 2);
}

#[test]
fn rerunning_a_document_after_partial_failure_is_safe() {
    let mut m = manager_with("p1", "teacher");
    m.store.add_principal_write_fault("p1", "score.delete");
    let template = PermissionTemplate::from_yaml_str(DOC).unwrap();
    let applied = template.apply_to_user(&mut m, "p1");
    assert_eq!(applied, 1);
    assert_eq!(m.get_user_specific_permissions("p1").len(), 1);
    m.store.clear_write_faults();
    let applied = template.apply_to_user(&mut m, "p1");
    assert_eq!(applied, 2);
    let nodes = m.get_user_specific_permissions("p1");
    assert_eq!(nodes.len(), 2);
    assert_eq!(nodes[0].permission, "score.view");
    assert_eq!(nodes[1].permission, "score.delete");
}

#[test]
fn overwrite_deletes_the_target_nodes_first() {
    let mut m = manager_with("p1", "teacher");
    m.add_role_permission("teacher", "old.pattern", true, 9).unwrap();
    let template = PermissionTemplate::from_yaml_str(DOC).unwrap();
    let applied = apply_template(
        &mut m,
        &template,
        &ApplyTarget::Role("teacher".to_string()),
        MergeStrategy::Overwrite,
    );
    assert_eq!(applied, 1);
    let nodes = m.get_role_permissions("teacher");
    assert_eq!(nodes.len(), 2);
    assert!(nodes.iter().all(|n| n.permission != "old.pattern"));
}

#[test]
fn merge_keeps_the_target_nodes() {
    let mut m = manager_with("p1", "teacher");
    m.add_role_permission("teacher", "old.pattern", true, 9).unwrap();
    let template = PermissionTemplate::from_yaml_str(DOC).unwrap();
    apply_template(
        &mut m,
        &template,
        &ApplyTarget::Role("teacher".to_string()),
        MergeStrategy::Merge,
    );
    assert_eq!(m.get_role_permissions("teacher").len(), 3);
}

#[test]
fn all_principals_never_overwrites() {
    let mut m = manager_with("p1", "teacher");
    m.directory.set_role("p2", "student");
    m.add_user_permission("p1", "keep.me", true, 9).unwrap();
    let template = PermissionTemplate::from_yaml_str(DOC).unwrap();
    let applied = apply_template(
        &mut m,
        &template,
        &ApplyTarget::AllPrincipals,
        MergeStrategy::Overwrite,
    );
    assert_eq!(applied, 2);
    let p1_nodes = m.get_user_specific_permissions("p1");
    assert!(p1_nodes.iter().any(|n| n.permission == "keep.me"));
    assert_eq!(p1_nodes.len(), 3);
    assert_eq!(m.get_user_specific_permissions("p2").len(), 2);
}

#[test]
fn scoped_suffix_strips_separators_and_keeps_six() {
    assert_eq!(scoped_suffix("123e4567-e89b-12d3-a456-426614174000"), "174000");
    assert_eq!(scoped_suffix("ab-cd"), "abcd");
    assert_eq!(scoped_suffix(""), "");
    assert_eq!(scoped_suffix("abcdefgh"), "cdefgh");
}

#[test]
fn scoped_grant_then_resolve_allows_every_synthesized_action() {
    let id = "123e4567-e89b-12d3-a456-426614174000";
    let mut m = manager_with("t1", "teacher");
    let granted = m.grant_scoped_permissions("t1", id);
    assert_eq!(granted, 7);
    let patterns = [
        "class.174000",
        "group.view.174000",
        "group.create.174000",
        "group.update.174000",
        "group.delete.174000",
        "group.update.member.174000",
        "group.update.score.174000",
    ];
    for p in patterns.iter() {
        assert_eq!(m.check_permission("t1", p), PermissionResult::Allowed);
    }
    assert!(m.require_class_permission("t1", "group.create", id).is_ok());
    let revoked = m.revoke_scoped_permissions("t1", id);
    assert_eq!(revoked, 7);
    for p in patterns.iter() {
        assert_eq!(m.check_permission("t1", p), PermissionResult::NotSet);
    }
    assert!(m.require_class_permission("t1", "group.create", id).is_err());
}

#[test]
fn scoped_grant_outranks_an_ordinary_role_deny() {
    let id = "class-00-aabbcc";
    let mut m = manager_with("t1", "teacher");
    m.add_role_permission("teacher", "group.create.aabbcc", false, 10).unwrap();
    m.grant_scoped_permissions("t1", id);
    assert_eq!(
        m.check_permission("t1", "group.create.aabbcc"),
        PermissionResult::Allowed
    );
}

#[test]
fn reassignment_grants_the_incoming_and_revokes_the_outgoing() {
    let id = "9bdeff00-1111";
    let mut m = manager_with("old-t", "teacher");
    m.directory.set_role("new-t", "teacher");
    m.grant_scoped_permissions("old-t", id);
    let (granted, revoked) = m.reassign_scoped_permissions(Some("old-t"), Some("new-t"), id);
    assert_eq!(granted, 7);
    assert_eq!(revoked, 7);
    assert_eq!(
        m.check_permission("new-t", "class.001111"),
        PermissionResult::Allowed
    );
    assert_eq!(
        m.check_permission("old-t", "class.001111"),
        PermissionResult::NotSet
    );
}

#[test]
fn reassignment_halves_fail_independently() {
    let id = "9bdeff00-1111";
    let mut m = manager_with("old-t", "teacher");
    m.directory.set_role("new-t", "teacher");
    m.grant_scoped_permissions("old-t", id);
    // every grant write for the incoming principal fails
    let suffix = scoped_suffix(id);
    for action in [
        "class.",
        "group.view.",
        "group.create.",
        "group.update.",
        "group.delete.",
        "group.update.member.",
        "group.update.score.",
    ] {
        let pattern = format!("{}{}", action, suffix);
        m.store.add_principal_write_fault("new-t", &pattern);
    }
    let (granted, revoked) = m.reassign_scoped_permissions(Some("old-t"), Some("new-t"), id);
    assert_eq!(granted, 0);
    assert_eq!(revoked, 7);
    assert_eq!(
        m.check_permission("old-t", "class.001111"),
        PermissionResult::NotSet
    );
    assert_eq!(
        m.check_permission("new-t", "class.001111"),
        PermissionResult::NotSet
    );
}
