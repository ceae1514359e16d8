//! Conversations: resuming, compacting, and how the agent is put together.

use loomis::app::{
    audit_log_file, build_coding_agent, dirs_fallback, path_under, seed_default_skills, setting_or,
    HookKind, SkillRoot, SkillsDir, AUDIT_FILE, MAX_RETRIES, MAX_STEPS,
};
use loomis::compact::{summary_request, take_summary, MemoryError};
use loomis::memory::{insert_before_history, Message, Role, ToolCallRef};
use loomis::sandbox::config::SandboxConfig;
use loomis::sandbox::shell_filter::ShellFilter;
use loomis::tui::app::{App, AppConfig};
use loomis::tui::keyboard::Platform;
use loomis::tui::messages::{ChatMessage, ThreadInfo};
use loomis::tui::resume::{rebuild_messages, Archive};
use loomis::tui::shell_exec::{report_outcome, ShellOutcome};

fn config() -> SandboxConfig {
    SandboxConfig {
        auto_approve_prefixes: vec!["git".to_string()],
        deny_patterns: vec!["(".to_string(), "sudo".to_string()],
        allowed_binaries: Vec::new(),
        max_total_operations: 100,
        max_concurrent_shells: 5,
        audit_enabled: false,
    }
}

fn make_app() -> App {
    App::new(
        AppConfig {
            model: "m".to_string(),
            tool_names: Vec::new(),
            plan_file: ".loomis/plan.md".to_string(),
            init_prompt: String::new(),
            skills: Vec::new(),
            shell_filter: ShellFilter::from_config(&config()),
            platform: Platform::Other,
        },
        "00:00:00",
    )
}

fn message(role: Role, content: &str) -> Message {
    Message::new(role, content.to_string())
}

fn last(app: &App) -> String {
    match app.messages.last().unwrap() {
        ChatMessage::System { content, .. } | ChatMessage::Error { content, .. } => content.clone(),
        other => panic!("got {other:?}"),
    }
}

// ── Resuming ────────────────────────────────────────────────────────────

#[test]
fn a_conversation_is_shown_again() {
    let mut asked = message(Role::Assistant, "Let me look.");
    asked.tool_calls = Some(vec![ToolCallRef {
        id: "c1".to_string(),
        name: "ls".to_string(),
        arguments: "{}".to_string(),
    }]);
    let mut told = message(Role::Tool, "src/");
    told.tool_call_id = Some("c1".to_string());
    let conversation =
        vec![message(Role::System, "prompt"), message(Role::User, "hi"), asked, told];
    let shown = rebuild_messages(&conversation, "00:00:00");
    assert!(matches!(&shown[0], ChatMessage::User { content, .. } if content == "hi"));
    assert!(matches!(&shown[1], ChatMessage::Assistant { content, .. }
        if content == "Let me look.\n\n[Tool: ls (id: c1)]"));
    assert!(matches!(&shown[2], ChatMessage::System { content, .. }
        if content == "[Tool result: c1]\nsrc/"));
    assert!(!shown.iter().any(|m| format!("{m:?}").contains("prompt")));
}

#[test]
fn loading_shows_the_conversation_or_the_trouble() {
    let mut app = make_app();
    app.conversation_loaded("old", Err("no such file".to_string()), "t");
    assert_eq!(last(&app), "Failed to resume \"old\": no such file");
    app.scroll_offset = 9;
    app.auto_scroll = false;
    app.conversation_loaded("old", Ok(vec![message(Role::User, "hi")]), "t");
    assert_eq!((app.scroll_offset, app.auto_scroll), (0, true));
    assert_eq!(app.conversation_title.as_deref(), Some("old"));
    assert!(app
        .messages
        .iter()
        .any(|m| matches!(m, ChatMessage::User { content, .. } if content == "hi")));
}

#[test]
fn saving_is_reported() {
    let mut app = make_app();
    app.conversation_saved("x", Ok(()), "t");
    assert_eq!(last(&app), "Saved conversation as \"x\".");
    app.conversation_saved("x", Err("full".to_string()), "t");
    assert_eq!(last(&app), "Failed to save: full");
}

#[test]
fn the_picker_opens_where_there_is_something() {
    let mut app = make_app();
    app.open_thread_picker(Ok(Vec::new()), "t");
    assert!(app.thread_picker.is_none());
    let thread = ThreadInfo {
        name: "x".to_string(),
        message_count: 1,
        total_chars: 2,
        saved_at: "now".to_string(),
    };
    app.open_thread_picker(Ok(vec![thread]), "t");
    assert_eq!(app.thread_picker.as_ref().unwrap().selected, 0);
}

#[test]
fn an_archived_plan_ends_plan_mode() {
    let mut app = make_app();
    app.plan_active = true;
    app.plan_archived(&Archive::Saved("plan-1.md".to_string()), "t");
    assert!(!app.plan_active);
    assert!(last(&app).contains("plan-1.md"));
}

#[test]
fn system_messages_stand_before_the_history() {
    let mut memory = vec![
        message(Role::System, "prompt"),
        message(Role::User, "hi"),
        message(Role::System, "late"),
    ];
    insert_before_history(&mut memory, message(Role::System, "new"));
    assert_eq!(memory[1].content, "new");
    assert_eq!(memory[2].content, "hi");
}

// ── Compacting ──────────────────────────────────────────────────────────

#[test]
fn a_summary_is_asked_for() {
    let old = vec![message(Role::User, "hi"), message(Role::Assistant, "hello")];
    let prompt = summary_request(&old).unwrap();
    assert!(prompt.starts_with("Summarise the following conversation history concisely."));
    assert!(prompt.ends_with("no preamble:\n\n[User]: hi\n\n[Assistant]: hello"));
    assert!(matches!(summary_request(&Vec::new()), Err(MemoryError::NothingToCompact)));
}

#[test]
fn a_reply_becomes_the_summary() {
    assert_eq!(take_summary(Ok(Some("short".to_string()))).unwrap(), "short");
    assert_eq!(take_summary(Ok(None)).unwrap(), "");
    match take_summary(Err("503".to_string())) {
        Err(MemoryError::SummariserFailed(m)) => assert_eq!(m, "LLM call failed: 503"),
        _ => panic!("accepted"),
    }
}

// ── Putting it together ─────────────────────────────────────────────────

fn listed(names: &[&str]) -> SkillsDir {
    SkillsDir::Listed(names.iter().map(|s| s.to_string()).collect())
}

#[test]
fn test_seeds_when_no_skills_exist() {
    assert!(seed_default_skills(&listed(&[])));
    assert!(seed_default_skills(&listed(&["notes.txt", ".md"])));
    assert!(seed_default_skills(&SkillsDir::Unreadable));
}

#[test]
fn test_idempotent_when_skills_exist() {
    assert!(!seed_default_skills(&listed(&["my-skill.md"])));
    assert!(!seed_default_skills(&listed(&["skill-generator.md"])));
}

#[test]
fn test_idempotent_when_directory_missing() {
    assert!(seed_default_skills(&SkillsDir::Missing));
}

#[test]
fn the_agent_is_put_together() {
    let kit = build_coding_agent("/ws", "pro", "flash", &config());
    assert_eq!(kit.tool_names.len(), 14);
    assert_eq!(kit.tool_names[0], "calculator");
    assert_eq!(kit.subagent_tools, vec!["read", "ls", "glob", "grep", "calculator"]);
    assert_eq!(kit.hooks.len(), 10);
    assert_eq!(kit.hooks[0], HookKind::SystemPrompt);
    assert_eq!(kit.hooks[9], HookKind::Sandbox);
    assert_eq!(kit.skill_roots, vec![SkillRoot::Workspace, SkillRoot::Home]);
    assert_eq!(kit.model, "pro");
    assert_eq!(kit.flash_model, "flash");
    assert_eq!((kit.max_steps, kit.max_retries, kit.streaming), (MAX_STEPS, MAX_RETRIES, true));
    assert_eq!(kit.shell_filter.deny_patterns, vec!["sudo"]);
    assert!(!kit.plan_mode.active);
    assert!(kit.todos.is_empty());
    assert!(kit.active_skills.is_empty());
    assert!(kit.pending_hints.is_empty());
    assert_eq!(kit.persistence_config.threads_dir, ".loomis/threads");
    assert_eq!(kit.persistence_config.current_thread_file, ".loomis/current");
    assert_eq!(kit.persistence_config.markdown_title, "Loomis Conversation");
    assert_eq!(kit.plan_file, "/ws/.loomis/plan.md");
    assert_eq!(kit.plan_dir, "/ws/.loomis/plan");
}

#[test]
fn paths_are_taken_under_a_root() {
    assert_eq!(path_under("/ws", ".loomis/threads"), "/ws/.loomis/threads");
}

#[test]
fn settings_have_defaults() {
    assert_eq!(audit_log_file(".agent/audit.jsonl"), AUDIT_FILE);
    assert_eq!(audit_log_file("elsewhere"), "elsewhere");
    assert_eq!(dirs_fallback(None), ".");
    assert_eq!(dirs_fallback(Some("/home/x".to_string())), "/home/x");
    assert_eq!(setting_or(None, "d"), "d");
}

// ── Commands of the user ────────────────────────────────────────────────

#[test]
fn commands_report_something() {
    let finished = |stdout: &[u8], stderr: &[u8], exit_code| ShellOutcome::Finished {
        stdout: stdout.to_vec(),
        stderr: stderr.to_vec(),
        exit_code,
    };
    assert_eq!(report_outcome(&finished(b"a\n", b"b\n", Some(0))), "a\nb");
    assert_eq!(report_outcome(&finished(b"a\n", b"", Some(2))), "a\n\n[exit code: 2]");
    assert_eq!(report_outcome(&finished(b"", b"", Some(0))), "(command completed with no output)");
    assert_eq!(report_outcome(&finished(b"", b"", None)), "(process terminated by signal, no output)");
    assert_eq!(
        report_outcome(&ShellOutcome::NotSpawned("no sh".to_string())),
        "Failed to spawn command: no sh"
    );
}
