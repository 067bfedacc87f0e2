//! The plain creation and update shapes of the stored records.

use vstd::prelude::*;

verus! {

/// The fields of a new class.
#[derive(Debug)]
pub struct ClassCreate {
    pub name: String,
    pub grade: i32,
    pub teacher_id: Option<String>,
    pub academic_year: String,
}

/// The fields a class update may change.
#[derive(Debug)]
pub struct ClassUpdate {
    pub name: Option<String>,
    pub grade: Option<i32>,
    pub teacher_id: Option<String>,
    pub academic_year: Option<String>,
}

/// The fields of a new department.
#[derive(Debug)]
pub struct DepartmentCreate {
    pub name: String,
    pub parent_id: Option<String>,
}

/// The fields a department update may change.
#[derive(Debug)]
pub struct DepartmentUpdate {
    pub name: Option<String>,
    pub parent_id: Option<String>,
}

/// The fields of a new group.
#[derive(Debug)]
pub struct GroupCreate {
    pub class_id: String,
    pub name: String,
    pub description: Option<String>,
}

/// The fields a group update may change.
#[derive(Debug)]
pub struct GroupUpdate {
    pub name: Option<String>,
    pub description: Option<String>,
}

/// A member to add to a group.
#[derive(Debug)]
pub struct GroupMemberAdd {
    pub person_id: String,
}

/// A signed change of a group's score, with its reason.
#[derive(Debug)]
pub struct GroupScoreChange {
    pub score_change: i32,
    pub reason: String,
}

/// The fields a notice update may change.
#[derive(Debug)]
pub struct NoticeUpdate {
    pub title: Option<String>,
    pub content: Option<String>,
    pub attachments: Option<Vec<String>>,
}

/// The fields of a new user account.
#[derive(Debug)]
pub struct UserCreate {
    pub username: String,
    pub password: String,
    pub role: String,
}

/// A username with its password.
#[derive(Debug)]
pub struct UserLogin {
    pub username: String,
    pub password: String,
}

} // verus!
