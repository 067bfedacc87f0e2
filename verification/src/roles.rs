//! The built-in default permission lists handed out per role at login.

use vstd::prelude::*;

verus! {

/// The default permission list of a role: a fixed list per built-in role,
/// and the dashboard alone for anything unknown.
pub open spec fn spec_role_default_permissions(role: Seq<char>) -> Seq<Seq<char>> {
    if role == "admin"@ {
        seq![
            "dashboard.view"@,
            "person.view"@,
            "person.manage"@,
            "person.sensitive.view"@,
            "class.view"@,
            "class.manage"@,
            "class.update_teacher"@,
            "department.view"@,
            "department.manage"@,
            "department.update"@,
            "attendance.view"@,
            "attendance.manage"@,
            "score.view"@,
            "score.manage"@,
            "notice.view"@,
            "notice.manage"@,
            "system.settings"@,
        ]
    } else if role == "teacher"@ {
        seq![
            "dashboard.view"@,
            "person.view"@,
            "person.sensitive.view"@,
            "class.view"@,
            "class.manage"@,
            "class.update_teacher"@,
            "attendance.manage"@,
            "score.manage"@,
            "notice.view"@,
            "department.view"@,
        ]
    } else if role == "student"@ {
        seq![
            "dashboard.view"@,
            "person.view"@,
            "class.view"@,
            "attendance.view"@,
            "score.view"@,
            "notice.view"@,
        ]
    } else if role == "parent"@ {
        seq![
            "dashboard.view"@,
            "person.view"@,
            "class.view"@,
            "attendance.view"@,
            "score.view"@,
            "notice.view"@,
        ]
    } else {
        seq!["dashboard.view"@]
    }
}

/// The default permission list handed out for `role`.
pub fn get_user_permissions(role: &str) -> (r: Vec<String>)
    ensures
        r@.map_values(|s: String| s@) == spec_role_default_permissions(role@),
{
    let mut r: Vec<String> = Vec::new();
    if crate::text::str_eq(role, "admin") {
        r.push(String::from_str("dashboard.view"));
        r.push(String::from_str("person.view"));
        r.push(String::from_str("person.manage"));
        r.push(String::from_str("person.sensitive.view"));
        r.push(String::from_str("class.view"));
        r.push(String::from_str("class.manage"));
        r.push(String::from_str("class.update_teacher"));
        r.push(String::from_str("department.view"));
        r.push(String::from_str("department.manage"));
        r.push(String::from_str("department.update"));
        r.push(String::from_str("attendance.view"));
        r.push(String::from_str("attendance.manage"));
        r.push(String::from_str("score.view"));
        r.push(String::from_str("score.manage"));
        r.push(String::from_str("notice.view"));
        r.push(String::from_str("notice.manage"));
        r.push(String::from_str("system.settings"));
    } else if crate::text::str_eq(role, "teacher") {
        r.push(String::from_str("dashboard.view"));
        r.push(String::from_str("person.view"));
        r.push(String::from_str("person.sensitive.view"));
        r.push(String::from_str("class.view"));
        r.push(String::from_str("class.manage"));
        r.push(String::from_str("class.update_teacher"));
        r.push(String::from_str("attendance.manage"));
        r.push(String::from_str("score.manage"));
        r.push(String::from_str("notice.view"));
        r.push(String::from_str("department.view"));
    } else if crate::text::str_eq(role, "student") {
        r.push(String::from_str("dashboard.view"));
        r.push(String::from_str("person.view"));
        r.push(String::from_str("class.view"));
        r.push(String::from_str("attendance.view"));
        r.push(String::from_str("score.view"));
        r.push(String::from_str("notice.view"));
    } else if crate::text::str_eq(role, "parent") {
        r.push(String::from_str("dashboard.view"));
        r.push(String::from_str("person.view"));
        r.push(String::from_str("class.view"));
        r.push(String::from_str("attendance.view"));
        r.push(String::from_str("score.view"));
        r.push(String::from_str("notice.view"));
    } else {
        r.push(String::from_str("dashboard.view"));
    }
    proof {
        assert(r@.map_values(|s: String| s@) =~= spec_role_default_permissions(role@));
    }
    r
}

} // verus!
