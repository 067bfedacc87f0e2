//! The catalog of known permission keys and their display names.

use vstd::prelude::*;

use crate::api_types::{PermissionKeysResponse, PermissionTranslationItem};

verus! {

/// The display name of a permission key; a key without one displays as
/// itself.
pub open spec fn spec_permission_translation(key: Seq<char>) -> Seq<char> {
    if key == "system.settings"@ {
        "系统设置"@
    } else if key == "system.permissions"@ {
        "权限管理"@
    } else if key == "person.view"@ {
        "查看人员列表"@
    } else if key == "person.view.detail"@ {
        "查看人员详情"@
    } else if key == "person.sensitive.view"@ {
        "查看敏感信息"@
    } else if key == "person.create"@ {
        "创建人员"@
    } else if key == "person.update"@ {
        "更新人员信息"@
    } else if key == "person.update.status"@ {
        "更新人员状态"@
    } else if key == "person.delete"@ {
        "删除人员"@
    } else if key == "person.*"@ {
        "所有人员权限"@
    } else if key == "class.view"@ {
        "查看班级列表"@
    } else if key == "class.view.detail"@ {
        "查看班级详情"@
    } else if key == "class.create"@ {
        "创建班级"@
    } else if key == "class.update"@ {
        "更新班级信息"@
    } else if key == "class.update.name"@ {
        "修改班级名称"@
    } else if key == "class.update.grade"@ {
        "修改班级年级"@
    } else if key == "class.update.teacher"@ {
        "修改班主任"@
    } else if key == "class.delete"@ {
        "删除班级"@
    } else if key == "class.*"@ {
        "所有班级权限"@
    } else if key == "department.view"@ {
        "查看部门"@
    } else if key == "department.create"@ {
        "创建部门"@
    } else if key == "department.update"@ {
        "更新部门"@
    } else if key == "department.delete"@ {
        "删除部门"@
    } else if key == "department.*"@ {
        "所有部门权限"@
    } else if key == "attendance.view"@ {
        "查看所有考勤"@
    } else if key == "attendance.view.own"@ {
        "查看自己的考勤"@
    } else if key == "attendance.create"@ {
        "创建考勤记录"@
    } else if key == "attendance.update"@ {
        "更新考勤"@
    } else if key == "attendance.delete"@ {
        "删除考勤"@
    } else if key == "attendance.*"@ {
        "所有考勤权限"@
    } else if key == "score.view"@ {
        "查看所有成绩"@
    } else if key == "score.view.own"@ {
        "查看自己的成绩"@
    } else if key == "score.create"@ {
        "创建成绩"@
    } else if key == "score.update"@ {
        "更新成绩"@
    } else if key == "score.delete"@ {
        "删除成绩"@
    } else if key == "score.*"@ {
        "所有成绩权限"@
    } else if key == "notice.view"@ {
        "查看通知"@
    } else if key == "notice.create"@ {
        "创建通知"@
    } else if key == "notice.update"@ {
        "更新通知"@
    } else if key == "notice.delete"@ {
        "删除通知"@
    } else if key == "notice.*"@ {
        "所有通知权限"@
    } else if key == "dashboard.view"@ {
        "查看仪表板"@
    } else if key == "*.view"@ {
        "所有查看权限"@
    } else if key == "*.create"@ {
        "所有创建权限"@
    } else if key == "*.update"@ {
        "所有更新权限"@
    } else if key == "*.delete"@ {
        "所有删除权限"@
    } else {
        key
    }
}

/// Every known permission key, in catalog order.
pub open spec fn spec_permission_keys() -> Seq<Seq<char>> {
    seq![
        "system.settings"@,
        "system.permissions"@,
        "person.view"@,
        "person.view.detail"@,
        "person.sensitive.view"@,
        "person.create"@,
        "person.update"@,
        "person.update.status"@,
        "person.delete"@,
        "person.*"@,
        "class.view"@,
        "class.view.detail"@,
        "class.create"@,
        "class.update"@,
        "class.update.name"@,
        "class.update.grade"@,
        "class.update.teacher"@,
        "class.delete"@,
        "class.*"@,
        "department.view"@,
        "department.create"@,
        "department.update"@,
        "department.delete"@,
        "department.*"@,
        "attendance.view"@,
        "attendance.view.own"@,
        "attendance.create"@,
        "attendance.update"@,
        "attendance.delete"@,
        "attendance.*"@,
        "score.view"@,
        "score.view.own"@,
        "score.create"@,
        "score.update"@,
        "score.delete"@,
        "score.*"@,
        "notice.view"@,
        "notice.create"@,
        "notice.update"@,
        "notice.delete"@,
        "notice.*"@,
        "dashboard.view"@,
        "*.view"@,
        "*.create"@,
        "*.update"@,
        "*.delete"@,
    ]
}

/// The display name of one permission key.
pub fn translate_permission(key: &str) -> (r: String)
    ensures
        r@ == spec_permission_translation(key@),
{
    if crate::text::str_eq(key, "system.settings") {
        String::from_str("系统设置")
    } else if crate::text::str_eq(key, "system.permissions") {
        String::from_str("权限管理")
    } else if crate::text::str_eq(key, "person.view") {
        String::from_str("查看人员列表")
    } else if crate::text::str_eq(key, "person.view.detail") {
        String::from_str("查看人员详情")
    } else if crate::text::str_eq(key, "person.sensitive.view") {
        String::from_str("查看敏感信息")
    } else if crate::text::str_eq(key, "person.create") {
        String::from_str("创建人员")
    } else if crate::text::str_eq(key, "person.update") {
        String::from_str("更新人员信息")
    } else if crate::text::str_eq(key, "person.update.status") {
        String::from_str("更新人员状态")
    } else if crate::text::str_eq(key, "person.delete") {
        String::from_str("删除人员")
    } else if crate::text::str_eq(key, "person.*") {
        String::from_str("所有人员权限")
    } else if crate::text::str_eq(key, "class.view") {
        String::from_str("查看班级列表")
    } else if crate::text::str_eq(key, "class.view.detail") {
        String::from_str("查看班级详情")
    } else if crate::text::str_eq(key, "class.create") {
        String::from_str("创建班级")
    } else if crate::text::str_eq(key, "class.update") {
        String::from_str("更新班级信息")
    } else if crate::text::str_eq(key, "class.update.name") {
        String::from_str("修改班级名称")
    } else if crate::text::str_eq(key, "class.update.grade") {
        String::from_str("修改班级年级")
    } else if crate::text::str_eq(key, "class.update.teacher") {
        String::from_str("修改班主任")
    } else if crate::text::str_eq(key, "class.delete") {
        String::from_str("删除班级")
    } else if crate::text::str_eq(key, "class.*") {
        String::from_str("所有班级权限")
    } else if crate::text::str_eq(key, "department.view") {
        String::from_str("查看部门")
    } else if crate::text::str_eq(key, "department.create") {
        String::from_str("创建部门")
    } else if crate::text::str_eq(key, "department.update") {
        String::from_str("更新部门")
    } else if crate::text::str_eq(key, "department.delete") {
        String::from_str("删除部门")
    } else if crate::text::str_eq(key, "department.*") {
        String::from_str("所有部门权限")
    } else if crate::text::str_eq(key, "attendance.view") {
        String::from_str("查看所有考勤")
    } else if crate::text::str_eq(key, "attendance.view.own") {
        String::from_str("查看自己的考勤")
    } else if crate::text::str_eq(key, "attendance.create") {
        String::from_str("创建考勤记录")
    } else if crate::text::str_eq(key, "attendance.update") {
        String::from_str("更新考勤")
    } else if crate::text::str_eq(key, "attendance.delete") {
        String::from_str("删除考勤")
    } else if crate::text::str_eq(key, "attendance.*") {
        String::from_str("所有考勤权限")
    } else if crate::text::str_eq(key, "score.view") {
        String::from_str("查看所有成绩")
    } else if crate::text::str_eq(key, "score.view.own") {
        String::from_str("查看自己的成绩")
    } else if crate::text::str_eq(key, "score.create") {
        String::from_str("创建成绩")
    } else if crate::text::str_eq(key, "score.update") {
        String::from_str("更新成绩")
    } else if crate::text::str_eq(key, "score.delete") {
        String::from_str("删除成绩")
    } else if crate::text::str_eq(key, "score.*") {
        String::from_str("所有成绩权限")
    } else if crate::text::str_eq(key, "notice.view") {
        String::from_str("查看通知")
    } else if crate::text::str_eq(key, "notice.create") {
        String::from_str("创建通知")
    } else if crate::text::str_eq(key, "notice.update") {
        String::from_str("更新通知")
    } else if crate::text::str_eq(key, "notice.delete") {
        String::from_str("删除通知")
    } else if crate::text::str_eq(key, "notice.*") {
        String::from_str("所有通知权限")
    } else if crate::text::str_eq(key, "dashboard.view") {
        String::from_str("查看仪表板")
    } else if crate::text::str_eq(key, "*.view") {
        String::from_str("所有查看权限")
    } else if crate::text::str_eq(key, "*.create") {
        String::from_str("所有创建权限")
    } else if crate::text::str_eq(key, "*.update") {
        String::from_str("所有更新权限")
    } else if crate::text::str_eq(key, "*.delete") {
        String::from_str("所有删除权限")
    } else {
        key.to_owned()
    }
}

/// The display names of the requested permission keys, one item per key, in
/// request order.
pub fn get_permission_translations(permissions: &Vec<String>) -> (r: Vec<PermissionTranslationItem>)
    ensures
        r@.len() == permissions@.len(),
        forall|i: int|
            0 <= i < r@.len() ==> (#[trigger] r@[i]).permission_key@ == permissions@[i]@
                && r@[i].translation@ == spec_permission_translation(permissions@[i]@),
{
    let mut r: Vec<PermissionTranslationItem> = Vec::new();
    let mut i: usize = 0;
    while i < permissions.len()
        invariant
            0 <= i <= permissions@.len(),
            r@.len() == i,
            forall|j: int|
                0 <= j < i ==> (#[trigger] r@[j]).permission_key@ == permissions@[j]@
                    && r@[j].translation@ == spec_permission_translation(permissions@[j]@),
        decreases permissions@.len() - i,
    {
        let translation = translate_permission(permissions[i].as_str());
        r.push(
            PermissionTranslationItem {
                permission_key: permissions[i].clone(),
                translation,
            },
        );
        i += 1;
    }
    r
}

/// Every known permission key.
pub fn get_all_permission_keys() -> (r: PermissionKeysResponse)
    ensures
        r.keys@.map_values(|s: String| s@) == spec_permission_keys(),
{
    let mut keys: Vec<String> = Vec::new();
    keys.push(String::from_str("system.settings"));
    keys.push(String::from_str("system.permissions"));
    keys.push(String::from_str("person.view"));
    keys.push(String::from_str("person.view.detail"));
    keys.push(String::from_str("person.sensitive.view"));
    keys.push(String::from_str("person.create"));
    keys.push(String::from_str("person.update"));
    keys.push(String::from_str("person.update.status"));
    keys.push(String::from_str("person.delete"));
    keys.push(String::from_str("person.*"));
    keys.push(String::from_str("class.view"));
    keys.push(String::from_str("class.view.detail"));
    keys.push(String::from_str("class.create"));
    keys.push(String::from_str("class.update"));
    keys.push(String::from_str("class.update.name"));
    keys.push(String::from_str("class.update.grade"));
    keys.push(String::from_str("class.update.teacher"));
    keys.push(String::from_str("class.delete"));
    keys.push(String::from_str("class.*"));
    keys.push(String::from_str("department.view"));
    keys.push(String::from_str("department.create"));
    keys.push(String::from_str("department.update"));
    keys.push(String::from_str("department.delete"));
    keys.push(String::from_str("department.*"));
    keys.push(String::from_str("attendance.view"));
    keys.push(String::from_str("attendance.view.own"));
    keys.push(String::from_str("attendance.create"));
    keys.push(String::from_str("attendance.update"));
    keys.push(String::from_str("attendance.delete"));
    keys.push(String::from_str("attendance.*"));
    keys.push(String::from_str("score.view"));
    keys.push(String::from_str("score.view.own"));
    keys.push(String::from_str("score.create"));
    keys.push(String::from_str("score.update"));
    keys.push(String::from_str("score.delete"));
    keys.push(String::from_str("score.*"));
    keys.push(String::from_str("notice.view"));
    keys.push(String::from_str("notice.create"));
    keys.push(String::from_str("notice.update"));
    keys.push(String::from_str("notice.delete"));
    keys.push(String::from_str("notice.*"));
    keys.push(String::from_str("dashboard.view"));
    keys.push(String::from_str("*.view"));
    keys.push(String::from_str("*.create"));
    keys.push(String::from_str("*.update"));
    keys.push(String::from_str("*.delete"));
    proof {
        assert(keys@.map_values(|s: String| s@) =~= spec_permission_keys());
    }
    PermissionKeysResponse { keys }
}

} // verus!
