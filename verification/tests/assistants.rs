//! Role defaults, plugins and the assistant text helpers.

use school_core::ai_text::{AIResponseParser, ParamAutoCompleter, SystemPromptTemplate};
use school_core::plugin::PluginManager;
use school_core::plugins::{AttendancePlugin, NoticePlugin, ScorePlugin};
use school_core::roles::get_user_permissions;

#[test]
fn role_defaults_are_fixed_per_role() {
    let admin = get_user_permissions("admin");
    assert_eq!(admin.len(), 17);
    assert!(admin.contains(&"system.settings".to_string()));
    let teacher = get_user_permissions("teacher");
    assert_eq!(teacher.len(), 10);
    assert!(!teacher.contains(&"system.settings".to_string()));
    let student = get_user_permissions("student");
    let parent = get_user_permissions("parent");
    assert_eq!(student, parent);
    assert_eq!(get_user_permissions("visitor"), vec!["dashboard.view".to_string()]);
}

#[test]
fn clean_response_strips_markers_and_trims() {
    assert_eq!(
        AIResponseParser::clean_response("[AI_ANSWER] hello [/AI_ANSWER]\n"),
        "hello"
    );
    assert_eq!(
        AIResponseParser::clean_response("[AI_NEED_INFO]which class?[/AI_NEED_INFO]"),
        "which class?"
    );
    assert_eq!(AIResponseParser::clean_response("plain text"), "plain text");
    assert_eq!(
        AIResponseParser::clean_response("[AI_QUERY][AI_ACTION]x[/AI_ACTION][/AI_QUERY]"),
        "x"
    );
}

#[test]
fn attendance_status_completion_follows_the_keyword_table() {
    assert_eq!(
        ParamAutoCompleter::complete_attendance_status("出勤"),
        Some("present".to_string())
    );
    // the keyword list is ordered: the bare arrival keyword precedes the
    // late keyword, so a text holding both completes to present
    assert_eq!(
        ParamAutoCompleter::complete_attendance_status("他迟到了"),
        Some("present".to_string())
    );
    assert_eq!(
        ParamAutoCompleter::complete_attendance_status("来晚了"),
        Some("late".to_string())
    );
    assert_eq!(
        ParamAutoCompleter::complete_attendance_status("旷课"),
        Some("absent".to_string())
    );
    assert_eq!(
        ParamAutoCompleter::complete_attendance_status("早退"),
        Some("early_leave".to_string())
    );
    assert_eq!(
        ParamAutoCompleter::complete_attendance_status("病假"),
        Some("excused".to_string())
    );
    assert_eq!(
        ParamAutoCompleter::complete_attendance_status("late"),
        Some("late".to_string())
    );
    assert_eq!(ParamAutoCompleter::complete_attendance_status("unknown"), None);
}

#[test]
fn data_analysis_prompt_embeds_result_and_question() {
    let prompt = SystemPromptTemplate::get_data_analysis_prompt("| a | 1 |", "how many?");
    assert!(prompt.contains("| a | 1 |"));
    assert!(prompt.contains("how many?"));
    assert!(prompt.contains("[AI_ANSWER]"));
}

#[test]
fn plugin_registry_finds_plugins_by_name() {
    let mut registry = PluginManager::new();
    registry.register(AttendancePlugin::new());
    registry.register(NoticePlugin::new());
    registry.register(ScorePlugin::new());
    assert!(registry.initialize_all().is_ok());
    let plugin = registry.get_plugin("notice").expect("notice plugin registered");
    assert_eq!(plugin.name(), "notice");
    assert_eq!(plugin.version(), "1.0.0");
    assert!(registry.get_plugin("missing").is_none());
    assert!(registry.shutdown_all().is_ok());
}

#[test]
fn permission_catalog_translates_known_keys_and_echoes_unknown_ones() {
    let keys = school_core::catalog::get_all_permission_keys();
    assert_eq!(keys.keys.len(), 46);
    assert_eq!(keys.keys[0], "system.settings");
    assert!(keys.keys.contains(&"*.delete".to_string()));
    let asked = vec![
        "system.settings".to_string(),
        "made.up.key".to_string(),
        "class.*".to_string(),
    ];
    let items = school_core::catalog::get_permission_translations(&asked);
    assert_eq!(items.len(), 3);
    assert_eq!(items[0].permission_key, "system.settings");
    assert_eq!(items[0].translation, "系统设置");
    assert_eq!(items[1].translation, "made.up.key");
    assert_eq!(items[2].translation, "所有班级权限");
}

#[test]
fn enhanced_prompt_reflects_the_permission_list() {
    let perms = vec!["notice.create".to_string(), "score.create".to_string()];
    let prompt = SystemPromptTemplate::get_enhanced_prompt(&perms);
    assert!(prompt.contains("notice.create, score.create"));
    assert!(prompt.contains("create_notice"));
    assert!(prompt.contains("create_score"));
    assert!(!prompt.contains("create_group"));
    let none = SystemPromptTemplate::get_enhanced_prompt(&[]);
    assert!(none.contains("当前用户没有可执行的操作权限。"));
    let all = SystemPromptTemplate::get_enhanced_prompt(&["group.*".to_string()]);
    assert!(all.contains("create_group"));
    assert!(all.contains("update_group_score"));
    assert!(all.contains("add_group_member"));
    assert!(all.contains("remove_group_member"));
}
