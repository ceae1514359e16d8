//! Plan mode: which tools it lets through, and the message it maintains.

use loomis::hooks::plan_mode_hook::{PlanModeHook, PlanModeState, PLAN_MODE_MARKER};
use loomis::memory::{Message, Role, ToolCallRef};

const PLAN_FILE: &str = "/ws/.loomis/plan.md";

fn make_hook() -> PlanModeHook {
    let prompt = "# PLAN MODE\n\nWrite the plan to {plan_file_path}.";
    PlanModeHook::new(PLAN_FILE.to_string(), prompt.to_string())
}

fn make_tool_call(name: &str, args: &str) -> ToolCallRef {
    ToolCallRef {
        id: "test-id".to_string(),
        name: name.to_string(),
        arguments: args.to_string(),
    }
}

fn make_write_args(file_path: &str) -> String {
    format!(r#"{{"file_path":"{file_path}","content":"test"}}"#)
}

/// The target of a write, below the workspace.
fn resolve(hook: &PlanModeHook, call: &ToolCallRef) -> Option<String> {
    hook.write_target(call).map(|path| {
        if path.starts_with('/') {
            path
        } else {
            format!("/ws/{path}")
        }
    })
}

fn passes(active: bool, name: &str, args: &str) -> bool {
    let hook = make_hook();
    let call = make_tool_call(name, args);
    let target = resolve(&hook, &call);
    hook.before_tool_call(PlanModeState { active }, &call, &target).is_ok()
}

fn is_plan_message(m: &Message) -> bool {
    m.role == Role::System && m.content.starts_with(PLAN_MODE_MARKER)
}

fn system(content: &str) -> Message {
    Message::new(Role::System, content.to_string())
}

#[test]
fn test_read_tool_allowed_in_plan_mode() {
    assert!(passes(true, "read", r#"{"file_path":"src/main.rs"}"#));
}

#[test]
fn test_write_tool_blocked_for_non_plan_file() {
    assert!(!passes(true, "write", &make_write_args("src/main.rs")));
}

#[test]
fn test_write_tool_allowed_for_plan_file() {
    assert!(passes(true, "write", &make_write_args(PLAN_FILE)));
    assert!(passes(true, "write", &make_write_args(".loomis/plan.md")));
}

#[test]
fn test_edit_blocked_in_plan_mode() {
    let args = r#"{"file_path":"src/main.rs","old_string":"x","new_string":"y"}"#;
    assert!(!passes(true, "edit", args));
}

#[test]
fn test_shell_blocked_in_plan_mode() {
    assert!(!passes(true, "shell", r#"{"command":"ls"}"#));
}

#[test]
fn test_all_tools_allowed_when_not_in_plan_mode() {
    for (name, args) in [
        ("read", r#"{"file_path":"x"}"#),
        ("write", &make_write_args("src/main.rs")),
        ("edit", r#"{"file_path":"x","old_string":"a","new_string":"b"}"#),
        ("shell", r#"{"command":"ls"}"#),
        ("glob", r#"{"pattern":"*"}"#),
        ("grep", r#"{"pattern":"foo"}"#),
        ("ls", r#"{"path":"."}"#),
        ("calculator", r#"{"expression":"1+1"}"#),
        ("ask_user_question", r#"{"questions":[]}"#),
        ("todo", r#"{"todos":[]}"#),
        ("task", r#"{"description":"x","prompt":"y"}"#),
        ("enter_plan_mode", "{}"),
        ("exit_plan_mode", "{}"),
    ] {
        assert!(
            passes(false, name, args),
            "tool '{name}' should be allowed when not in plan mode"
        );
    }
}

#[test]
fn test_subagent_allowed_in_plan_mode() {
    assert!(passes(true, "task", r#"{"description":"research","prompt":"explore"}"#));
}

#[test]
fn test_injects_plan_mode_system_message_when_active() {
    let mut messages = vec![system("Normal system prompt")];
    make_hook().on_llm_start(PlanModeState { active: true }, &mut messages);

    let plan_msg = messages.iter().find(|m| is_plan_message(m));
    assert!(plan_msg.is_some(), "expected [PLAN_MODE] System message");
    let content = &plan_msg.unwrap().content;
    assert!(content.contains("PLAN MODE"), "should contain PLAN MODE heading");
    assert!(content.contains(PLAN_FILE), "should contain plan file path");
}

#[test]
fn test_removes_plan_mode_system_message_when_inactive() {
    let mut messages = vec![
        system(&format!("{PLAN_MODE_MARKER}\n\nPlan mode instructions.")),
        system("Normal system prompt"),
    ];
    make_hook().on_llm_start(PlanModeState { active: false }, &mut messages);

    let plan_count = messages.iter().filter(|m| is_plan_message(m)).count();
    assert_eq!(plan_count, 0, "[PLAN_MODE] message should be removed");
    assert!(
        messages.iter().any(|m| m.role == Role::System && m.content == "Normal system prompt"),
        "non-plan System message should be preserved"
    );
}

#[test]
fn test_replaces_existing_plan_mode_message() {
    let mut messages = vec![system(&format!("{PLAN_MODE_MARKER}\n\nOld plan mode content."))];
    make_hook().on_llm_start(PlanModeState { active: true }, &mut messages);

    let plan_count = messages.iter().filter(|m| is_plan_message(m)).count();
    assert_eq!(plan_count, 1, "should still have exactly one [PLAN_MODE] message");
    let plan_msg = messages.iter().find(|m| is_plan_message(m)).unwrap();
    assert!(
        !plan_msg.content.contains("Old plan mode"),
        "should NOT contain old content, got: {}",
        plan_msg.content
    );
}

#[test]
fn test_todo_and_ask_user_question_allowed_in_plan_mode() {
    assert!(passes(true, "todo", r#"{"todos":[]}"#));
    assert!(passes(true, "ask_user_question", r#"{"questions":[]}"#));
}

#[test]
fn test_enter_and_exit_plan_mode_allowed_when_active() {
    assert!(passes(true, "enter_plan_mode", "{}"));
    assert!(passes(true, "exit_plan_mode", "{}"));
}

#[test]
fn test_unknown_tool_blocked_in_plan_mode() {
    assert!(!passes(true, "unknown_tool", r#"{}"#));
}

#[test]
fn writes_without_a_path_are_refused() {
    assert!(!passes(true, "write", r#"{"content":"test"}"#));
    assert!(!passes(true, "write", "no json"));
    assert!(!passes(true, "write", r#"{"file_path":3}"#));
}

#[test]
fn a_refusal_names_the_tool() {
    let hook = make_hook();
    let call = make_tool_call("shell", "{}");
    let refused = hook.before_tool_call(PlanModeState { active: true }, &call, &None);
    assert_eq!(refused.unwrap_err().name, "shell");
}
