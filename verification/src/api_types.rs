//! Request and response shapes of the service's endpoints.
//!
//! These are plain data carriers: the transport that fills and serializes
//! them lives outside the library, which only defines their shapes.

use vstd::prelude::*;

verus! {

/// A chat request: the user's message, optionally aimed at one assistant
/// identity.
#[derive(Debug)]
pub struct ChatRequest {
    pub message: String,
    pub identity_id: Option<String>,
}

/// A chat reply: the assistant's text.
#[derive(Debug)]
pub struct ChatResponse {
    pub data: String,
}

/// One configured assistant identity.
#[derive(Debug)]
pub struct AIIdentity {
    pub id: String,
    pub name: String,
    pub description: String,
    pub prompt: String,
    pub allowed_roles: Vec<String>,
    pub is_active: bool,
}

/// The fields of a new assistant identity.
#[derive(Debug)]
pub struct CreateIdentityRequest {
    pub name: String,
    pub description: String,
    pub prompt: String,
    pub allowed_roles: Vec<String>,
    pub is_active: bool,
}

/// The fields an assistant identity update may change.
#[derive(Debug)]
pub struct UpdateIdentityRequest {
    pub name: Option<String>,
    pub description: Option<String>,
    pub prompt: Option<String>,
    pub allowed_roles: Option<Vec<String>>,
    pub is_active: Option<bool>,
}

/// One message of an assistant conversation.
#[derive(Debug, Clone)]
pub struct AIChatMessage {
    pub role: String,
    pub content: String,
}

/// One choice of an assistant completion.
#[derive(Debug)]
pub struct AIChatResponseChoice {
    pub message: AIChatMessage,
    pub finish_reason: Option<String>,
    pub index: i32,
}

/// An assistant completion.
#[derive(Debug)]
pub struct AIChatResponse {
    pub id: String,
    pub object: String,
    pub created: i64,
    pub model: String,
    pub choices: Vec<AIChatResponseChoice>,
    pub usage: Option<AIChatResponseUsage>,
}

/// Token accounting of an assistant completion.
#[derive(Debug)]
pub struct AIChatResponseUsage {
    pub prompt_tokens: i32,
    pub completion_tokens: i32,
    pub total_tokens: i32,
}

/// An enhanced chat request: the message with its conversation history.
#[derive(Debug)]
pub struct EnhancedChatRequest {
    pub message: String,
    pub conversation_history: Vec<ChatMessage>,
}

/// One message of a conversation history.
#[derive(Debug, Clone)]
pub struct ChatMessage {
    pub role: String,
    pub content: String,
}

/// An enhanced chat reply: the text, and whether a data query ran for it.
#[derive(Debug)]
pub struct EnhancedChatResponse {
    pub data: String,
    pub query_executed: bool,
    pub query_type: Option<String>,
}

/// A name candidate offered when several records share a name.
#[derive(Debug)]
pub struct NameCandidate {
    pub id: String,
    pub name: String,
    pub info: String,
}

/// How a loose name resolved: one id, several candidates, or nothing.
pub enum ResolutionResult {
    Single(String),
    Multiple(Vec<NameCandidate>),
    NotFound(String),
}

/// Parameters of a notice-creating assistant action.
#[derive(Debug)]
pub struct CreateNoticeParams {
    pub title: String,
    pub content: String,
    pub target_type: String,
    pub target_id: Option<String>,
    pub is_important: Option<bool>,
}

/// Parameters of a group-creating assistant action.
#[derive(Debug)]
pub struct CreateGroupParams {
    pub class_id: String,
    pub name: String,
    pub description: Option<String>,
}

/// Parameters of a group-score-changing assistant action.
#[derive(Debug)]
pub struct UpdateGroupScoreParams {
    pub group_id: String,
    pub score_change: i32,
    pub reason: String,
}

/// Parameters of a member-adding assistant action.
#[derive(Debug)]
pub struct AddGroupMemberParams {
    pub group_id: String,
    pub person_id: String,
}

/// Parameters of a member-removing assistant action.
#[derive(Debug)]
pub struct RemoveGroupMemberParams {
    pub group_id: String,
    pub person_id: String,
}

/// Parameters of an attendance-recording assistant action.
#[derive(Debug)]
pub struct CreateAttendanceParams {
    pub person_id: String,
    pub date: String,
    pub status: String,
    pub time: Option<String>,
    pub remark: Option<String>,
}

/// Parameters of a score-recording assistant action.
#[derive(Debug)]
pub struct CreateScoreParams {
    pub student_id: String,
    pub reason: String,
    pub value: i32,
}

/// Resolves loose names against the stored records.
pub struct NameResolver;

/// Executes assistant actions against the stored records.
pub struct AIActionExecutor;

/// Executes assistant data queries against the stored records.
pub struct DataQueryExecutor;

/// Formats query results as Markdown.
pub struct MarkdownFormatter;

/// A data query: its type, an optional id or name, and the output format.
#[derive(Debug)]
pub struct DataQueryRequest {
    pub query_type: String,
    pub id: Option<String>,
    pub format_as_markdown: bool,
}

/// A data query result with its format and the caller's permissions.
#[derive(Debug)]
pub struct DataQueryResponse {
    pub data: String,
    pub data_type: String,
    pub user_permissions: Vec<String>,
}

/// A login request.
#[derive(Debug)]
pub struct LoginRequest {
    pub username: String,
    pub password: String,
    pub remember_me: bool,
}

/// A registration request.
#[derive(Debug)]
pub struct RegisterRequest {
    pub username: String,
    pub password: String,
    pub name: String,
    pub email: Option<String>,
    pub role: String,
    pub type_: String,
}

/// A login reply: token, user, effective permissions, expiry.
#[derive(Debug)]
pub struct LoginResponse {
    pub token: String,
    pub user: UserInfo,
    pub permissions: Vec<String>,
    pub expires_in: u64,
}

/// The user fields a login reply carries.
#[derive(Debug)]
pub struct UserInfo {
    pub id: String,
    pub username: String,
    pub role: String,
    pub name: String,
    pub email: String,
}

/// A page of items with its paging counters.
#[derive(Debug)]
pub struct ListResponse<T> {
    pub items: Vec<T>,
    pub total: i64,
    pub page: i64,
    pub limit: i64,
}

/// The fields an attendance update may change.
#[derive(Debug)]
pub struct UpdateAttendanceRequest {
    pub status: Option<String>,
    pub time: Option<String>,
    pub remark: Option<String>,
}

/// The fields a notice update may change.
#[derive(Debug)]
pub struct UpdateNoticeRequest {
    pub title: Option<String>,
    pub content: Option<String>,
    pub is_important: Option<bool>,
}

/// The fields a score update may change.
#[derive(Debug)]
pub struct UpdateScoreRequest {
    pub value: Option<i32>,
    pub reason: Option<String>,
}

/// One role's permission nodes.
#[derive(Debug)]
pub struct PermissionListResponse {
    pub role: String,
    pub permissions: Vec<PermissionItem>,
}

/// One role-owned permission row as listed.
#[derive(Debug)]
pub struct PermissionItem {
    pub permission: String,
    pub priority: i32,
    pub created_at: String,
}

/// A role permission to add.
#[derive(Debug)]
pub struct AddPermissionRequest {
    pub role: String,
    pub permission: String,
    pub value: Option<bool>,
    pub priority: Option<i32>,
}

/// A role permission to remove.
#[derive(Debug)]
pub struct RemovePermissionRequest {
    pub role: String,
    pub permission: String,
}

/// One principal-owned permission row as listed.
#[derive(Debug)]
pub struct UserPermissionItem {
    pub permission: String,
    pub value: bool,
    pub priority: i32,
    pub created_at: String,
}

/// A principal permission to add.
#[derive(Debug)]
pub struct AddUserPermissionRequest {
    pub permission: String,
    pub value: bool,
    pub priority: Option<i32>,
}

/// A permission to check for the caller.
#[derive(Debug)]
pub struct CheckPermissionRequest {
    pub permission: String,
}

/// A permission check's outcome.
#[derive(Debug)]
pub struct CheckPermissionResponse {
    pub has_permission: bool,
    pub result: String,
}

/// Permission keys to translate.
#[derive(Debug)]
pub struct PermissionTranslationRequest {
    pub permissions: Vec<String>,
}

/// One translated permission key.
#[derive(Debug)]
pub struct PermissionTranslationItem {
    pub permission_key: String,
    pub translation: String,
}

/// The outcome of a bulk template application.
#[derive(Debug)]
pub struct YamlApplyResponse {
    pub success: bool,
    pub message: String,
    pub applied_count: i32,
}

/// Every known permission key.
#[derive(Debug)]
pub struct PermissionKeysResponse {
    pub keys: Vec<String>,
}

} // verus!
