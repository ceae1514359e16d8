//! What is learned of the user.

use loomis::hooks::profile_hook::{
    build_synthesis_prompt, extract_json_object, has_cjk, synthesis_context, Profile,
    ProfileHook, SynthesisUpdate, ToolStats, Verbosity, PROFILE_MARKER, SYNTHESIS_INTERVAL,
};
use loomis::memory::{Message, Role, ToolCallRef};

fn profile() -> Profile {
    Profile {
        language_preference: "en-US".to_string(),
        preferences: Vec::new(),
        avoidances: Vec::new(),
        expertise_signals: Vec::new(),
        coding_conventions: Vec::new(),
        verbosity: Verbosity::default(),
        tool_stats: Vec::new(),
        total_sessions: 0,
        last_synthesis_session: 0,
        updated_at: String::new(),
    }
}

fn make_hook() -> ProfileHook {
    ProfileHook::new(profile())
}

fn profile_message(p: &Profile) -> String {
    format!(
        "{PROFILE_MARKER}\n- Sessions: {}\n- Language: {}",
        p.total_sessions, p.language_preference
    )
}

fn refresh(hook: &ProfileHook, messages: &mut Vec<Message>) {
    hook.on_llm_start(profile_message(&hook.profile), messages);
}

fn dummy_tool_call(name: &str) -> ToolCallRef {
    ToolCallRef {
        id: format!("call_{name}"),
        name: name.to_string(),
        arguments: "{}".to_string(),
    }
}

fn stats(hook: &ProfileHook, name: &str) -> ToolStats {
    hook.profile.tool_stats.iter().find(|e| e.0 == name).unwrap().1
}

fn parse_synthesis_response(text: &str) -> Option<SynthesisUpdate> {
    let json = extract_json_object(text)?;
    let value: serde_json::Value = serde_json::from_str(&json).ok()?;
    let list = |name: &str| -> Vec<String> {
        let items = value.get(name).and_then(|v| v.as_array()).cloned().unwrap_or_default();
        items.iter().filter_map(|v| v.as_str()).map(|s| s.to_string()).collect()
    };
    Some(SynthesisUpdate {
        preferences: list("preferences"),
        avoidances: list("avoidances"),
        expertise_signals: list("expertise_signals"),
        coding_conventions: list("coding_conventions"),
        verbosity: match value.get("verbosity").and_then(|v| v.as_str()) {
            Some("concise") => Verbosity::Concise,
            Some("detailed") => Verbosity::Detailed,
            _ => Verbosity::Normal,
        },
        language_preference: value
            .get("language_preference")
            .and_then(|v| v.as_str())
            .unwrap_or_default()
            .to_string(),
    })
}

// ── The message ─────────────────────────────────────────────────────────

#[test]
fn test_injects_profile_message() {
    let mut messages: Vec<Message> = Vec::new();
    refresh(&make_hook(), &mut messages);
    let profile_msg =
        messages.iter().find(|m| m.role == Role::System && m.content.starts_with(PROFILE_MARKER));
    assert!(profile_msg.is_some(), "expected [PROFILE] System message after on_llm_start");
    let content = &profile_msg.unwrap().content;
    assert!(content.contains("Sessions:"), "should contain session count");
    assert!(content.contains("Language:"), "should contain language");
}

#[test]
fn test_removes_old_profile_message_on_refresh() {
    let stale = "[PROFILE]\n- Sessions: 1\n- Language: en-US".to_string();
    let mut messages = vec![Message::new(Role::System, stale)];
    refresh(&make_hook(), &mut messages);
    let count = messages
        .iter()
        .filter(|m| m.role == Role::System && m.content.starts_with(PROFILE_MARKER))
        .count();
    assert_eq!(count, 1, "[PROFILE] message should be unique (not duplicated)");
}

#[test]
fn test_preserves_non_profile_system_messages() {
    let mut messages = vec![Message::new(Role::System, "Regular system prompt".to_string())];
    refresh(&make_hook(), &mut messages);
    assert!(
        messages.iter().any(|m| m.role == Role::System && m.content == "Regular system prompt"),
        "non-profile System messages should survive"
    );
}

// ── Tools ───────────────────────────────────────────────────────────────

#[test]
fn test_tracks_tool_call_stats() {
    let mut hook = make_hook();
    let tc = dummy_tool_call("read");

    hook.before_tool_call(&tc);
    hook.after_tool_call(&tc);
    hook.before_tool_call(&tc);
    hook.on_tool_failed(&tc);
    hook.before_tool_call(&tc);
    hook.after_tool_call(&tc);

    let stats = stats(&hook, "read");
    assert_eq!(stats.total_calls, 3);
    assert_eq!(stats.successes, 2);
    assert_eq!(stats.failures, 1);
}

#[test]
fn test_tracks_multiple_tools_independently() {
    let mut hook = make_hook();
    let read_tc = dummy_tool_call("read");
    let edit_tc = dummy_tool_call("edit");

    hook.before_tool_call(&read_tc);
    hook.after_tool_call(&read_tc);
    hook.before_tool_call(&edit_tc);
    hook.after_tool_call(&edit_tc);
    hook.before_tool_call(&edit_tc);
    hook.on_tool_failed(&edit_tc);

    assert_eq!(stats(&hook, "read").total_calls, 1);
    assert_eq!(stats(&hook, "edit").total_calls, 2);
}

#[test]
fn test_rejected_computed_from_diff() {
    let mut hook = make_hook();
    hook.before_tool_call(&dummy_tool_call("shell"));
    let stats = stats(&hook, "shell");
    assert_eq!(stats.total_calls, 1);
    assert_eq!(stats.successes, 0);
    assert_eq!(stats.failures, 0);
    assert_eq!(stats.rejected(), 1);
}

// ── Language ────────────────────────────────────────────────────────────

#[test]
fn test_language_detection_chinese() {
    let mut hook = make_hook();
    hook.on_run_start("帮我写一个函数");
    assert_eq!(hook.profile.language_preference, "zh-CN");
}

#[test]
fn test_language_sticks_after_detection() {
    let mut hook = make_hook();
    hook.on_run_start("你好");
    hook.on_run_start("hello world");
    assert_eq!(
        hook.profile.language_preference, "zh-CN",
        "should remain zh-CN after English-only message"
    );
}

#[test]
fn test_language_stays_en_for_ascii() {
    let mut hook = make_hook();
    hook.on_run_start("write a function");
    assert_eq!(hook.profile.language_preference, "en-US");
    assert!(!has_cjk("write a function"));
}

// ── Sessions ────────────────────────────────────────────────────────────

#[test]
fn test_total_sessions_incremented() {
    let mut hook = make_hook();
    for _ in 0..4 {
        hook.on_run_finish("now");
    }
    assert_eq!(hook.profile.total_sessions, 4);
}

#[test]
fn a_synthesis_is_due_after_enough_sessions() {
    let mut hook = make_hook();
    for _ in 1..SYNTHESIS_INTERVAL {
        assert!(!hook.on_run_finish("now"));
    }
    assert!(hook.on_run_finish("now"));
}

// ── Replies ─────────────────────────────────────────────────────────────

#[test]
fn test_parse_clean_json() {
    let json = r#"{"preferences":["likes rust"],"avoidances":[],"expertise_signals":[],"coding_conventions":[],"verbosity":"concise","language_preference":"en-US"}"#;
    let update = parse_synthesis_response(json).unwrap();
    assert_eq!(update.preferences, vec!["likes rust"]);
    assert!(update.avoidances.is_empty());
    assert_eq!(update.verbosity, Verbosity::Concise);
    assert_eq!(update.language_preference, "en-US");
}

#[test]
fn test_parse_json_in_code_block() {
    let text = "Some preamble text\n```json\n{\"preferences\":[\"prefers async\"],\"avoidances\":[],\"expertise_signals\":[],\"coding_conventions\":[],\"verbosity\":\"normal\",\"language_preference\":\"\"}\n```\nMore text";
    let update = parse_synthesis_response(text).unwrap();
    assert_eq!(update.preferences, vec!["prefers async"]);
}

#[test]
fn test_parse_bare_json_with_surrounding_text() {
    let text = "Here's the profile: {\"preferences\":[\"test\"],\"avoidances\":[],\"expertise_signals\":[],\"coding_conventions\":[],\"verbosity\":\"detailed\",\"language_preference\":\"\"} done.";
    let update = parse_synthesis_response(text).unwrap();
    assert_eq!(update.preferences, vec!["test"]);
    assert_eq!(update.verbosity, Verbosity::Detailed);
}

#[test]
fn test_parse_malformed_returns_none() {
    assert!(parse_synthesis_response("not json at all").is_none());
    assert!(parse_synthesis_response("").is_none());
}

#[test]
fn test_parse_partial_json_uses_defaults() {
    let json = r#"{"preferences":["one"]}"#;
    let update = parse_synthesis_response(json).unwrap();
    assert_eq!(update.preferences, vec!["one"]);
    assert!(update.avoidances.is_empty());
    assert!(update.expertise_signals.is_empty());
    assert_eq!(update.verbosity, Verbosity::Normal);
}

// ── Syntheses ───────────────────────────────────────────────────────────

#[test]
fn a_synthesis_keeps_what_it_found_nothing_of() {
    let mut hook = make_hook();
    hook.profile.avoidances = vec!["unsafe".to_string()];
    hook.profile.total_sessions = 7;
    let update = parse_synthesis_response(r#"{"preferences":["one"]}"#);
    hook.merge(update, "later");
    assert_eq!(hook.profile.preferences, vec!["one"]);
    assert_eq!(hook.profile.avoidances, vec!["unsafe"]);
    assert_eq!(hook.profile.language_preference, "en-US");
    assert_eq!(hook.profile.last_synthesis_session, 7);
    assert_eq!(hook.profile.updated_at, "later");
}

#[test]
fn a_failed_synthesis_changes_nothing() {
    let mut hook = make_hook();
    hook.merge(None, "later");
    assert_eq!(hook.profile.updated_at, "");
}

#[test]
fn a_request_holds_the_profile_and_the_talk() {
    let messages = vec![
        Message::new(Role::System, "rules".to_string()),
        Message::new(Role::User, "hi".to_string()),
        Message::new(Role::Assistant, "hello".to_string()),
    ];
    let context = synthesis_context(&messages);
    assert!(context.contains("[User]: hi"));
    assert!(context.contains("[Assistant]: hello"));
    assert!(!context.contains("rules"));
    let prompt = build_synthesis_prompt("{}", &context);
    assert_eq!(make_hook().synthesis_request("{}", &messages), prompt);
    assert!(prompt.contains("```json\n{}\n```"));
}
