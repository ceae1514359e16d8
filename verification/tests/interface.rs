//! The state of the interface: events of the agent, and keys.

use loomis::sandbox::config::SandboxConfig;
use loomis::sandbox::shell_filter::ShellFilter;
use loomis::tui::agent_event::{improve_error_message, AgentEvent};
use loomis::tui::app::{App, AppConfig};
use loomis::tui::debug::TraceEvent;
use loomis::tui::keyboard::{KeyCode, KeyEvent, KeyModifiers, Platform};
use loomis::tui::messages::{slash_commands, CallOrigin, ChatMessage, ToolCallState, TuiCommand};
use loomis::tui::slash::Facts;

fn ts() -> String {
    "00:00:00".into()
}

fn facts() -> Facts {
    Facts { timestamp: ts(), memory_len: 0, memory_chars: 0 }
}

fn texts(v: &[&str]) -> Vec<String> {
    v.iter().map(|s| s.to_string()).collect()
}

fn make_app() -> App {
    let config = SandboxConfig {
        auto_approve_prefixes: texts(&["cargo", "git", "echo", "ls"]),
        deny_patterns: texts(&[r"rm\s+-rf\s+(/|~)", r"\bsudo\b"]),
        allowed_binaries: Vec::new(),
        max_total_operations: 100,
        max_concurrent_shells: 5,
        audit_enabled: false,
    };
    App::new(
        AppConfig {
            model: "test-model".to_string(),
            tool_names: texts(&["echo", "ls"]),
            plan_file: ".loomis/plan.md".to_string(),
            init_prompt: "Look at the project.".to_string(),
            skills: Vec::new(),
            shell_filter: ShellFilter::from_config(&config),
            platform: Platform::Other,
        },
        "00:00:00",
    )
}

// ── apply_event ───────────────────────────────────────────────────────────

#[test]
fn test_spinner_run_lifecycle() {
    let mut app = make_app();
    assert!(app.run_started_at.is_none());

    app.apply_event(AgentEvent::RunStarted {
        session_id: "s1".into(),
        user_input: "hi".into(),
    }, &ts(), 5_000);
    assert!(app.run_started_at.is_some());
    assert!(app.streaming);

    app.apply_event(AgentEvent::RunCompleted {
        answer: "done".into(),
    }, &ts(), 5_000);
    assert!(app.run_started_at.is_none());

    // Failed run also clears the timer.
    app.apply_event(AgentEvent::RunStarted {
        session_id: "s2".into(),
        user_input: "hi".into(),
    }, &ts(), 5_000);
    assert!(app.run_started_at.is_some());
    app.apply_event(AgentEvent::RunFailed {
        error: "boom".into(),
    }, &ts(), 5_000);
    assert!(app.run_started_at.is_none());

    // Done sentinel clears it too.
    app.apply_event(AgentEvent::RunStarted {
        session_id: "s3".into(),
        user_input: "hi".into(),
    }, &ts(), 5_000);
    app.apply_event(AgentEvent::Done, &ts(), 5_000);
    assert!(app.run_started_at.is_none());
    assert!(!app.streaming);
}

#[test]
fn test_apply_token_creates_assistant() {
    let mut app = make_app();
    // clear the welcome message for clean test state
    app.messages.clear();
    app.apply_event(AgentEvent::Token("Hello".into()), &ts(), 5_000);
    assert_eq!(app.messages.len(), 1);
    match &app.messages[0] {
        ChatMessage::Assistant { content, .. } => assert_eq!(content, "Hello"),
        other => panic!("expected Assistant, got {other:?}"),
    }
}

#[test]
fn test_apply_token_appends_to_last_assistant() {
    let mut app = make_app();
    app.messages.clear();
    app.apply_event(AgentEvent::Token("Hel".into()), &ts(), 5_000);
    app.apply_event(AgentEvent::Token("lo".into()), &ts(), 5_000);
    assert_eq!(app.messages.len(), 1);
    match &app.messages[0] {
        ChatMessage::Assistant { content, .. } => assert_eq!(content, "Hello"),
        other => panic!("expected Assistant, got {other:?}"),
    }
}

#[test]
fn test_apply_token_new_assistant_after_tool_call() {
    let mut app = make_app();
    app.messages.clear();
    app.apply_event(AgentEvent::Token("Before".into()), &ts(), 5_000);
    app.apply_event(AgentEvent::ToolCall {
        id: "t1".into(),
        name: "echo".into(),
        arguments: r#"{"x":1}"#.into(),
        origin: CallOrigin::Llm,
    }, &ts(), 5_000);
    app.apply_event(AgentEvent::ToolSuccessful {
        id: "t1".into(),
        name: "echo".into(),
        output: "ok".into(),
    }, &ts(), 5_000);
    // New token after tool result creates a fresh Assistant message
    app.apply_event(AgentEvent::Token("After".into()), &ts(), 5_000);

    assert_eq!(app.messages.len(), 3); // Before, ToolCall, After
    match &app.messages[0] {
        ChatMessage::Assistant { content, .. } => assert_eq!(content, "Before"),
        other => panic!("expected Assistant, got {other:?}"),
    }
    match &app.messages[2] {
        ChatMessage::Assistant { content, .. } => assert_eq!(content, "After"),
        other => panic!("expected Assistant, got {other:?}"),
    }
}

#[test]
fn test_apply_done_sets_streaming_false() {
    let mut app = make_app();
    app.streaming = true;
    app.apply_event(AgentEvent::Done, &ts(), 5_000);
    assert!(!app.streaming);
}

#[test]
fn test_apply_tool_call_lifecycle() {
    let mut app = make_app();
    app.messages.clear();
    app.apply_event(AgentEvent::ToolCall {
        id: "abc".into(),
        name: "ls".into(),
        arguments: r#"{"path":"."}"#.into(),
        origin: CallOrigin::Llm,
    }, &ts(), 5_000);
    app.apply_event(AgentEvent::ToolSuccessful {
        id: "abc".into(),
        name: "ls".into(),
        output: "src/\nCargo.toml".into(),
    }, &ts(), 5_000);

    assert_eq!(app.messages.len(), 1);
    match &app.messages[0] {
        ChatMessage::ToolCall {
            id,
            name,
            args,
            state,
            ..
        } => {
            assert_eq!(id, "abc");
            assert_eq!(name, "ls");
            assert_eq!(args, r#"{"path":"."}"#);
            match state {
                ToolCallState::Complete(out) => assert_eq!(out, "src/\nCargo.toml"),
                ToolCallState::Running => panic!("expected Complete"),
                ToolCallState::Error(_) => panic!("expected Complete, got Error"),
                ToolCallState::Rejected(_) => panic!("expected Complete, got Rejected"),
            }
        }
        other => panic!("expected ToolCall, got {other:?}"),
    }
}

#[test]
fn test_apply_reasoning_token() {
    let mut app = make_app();
    app.messages.clear();
    app.apply_event(AgentEvent::ReasoningToken("Hmm, ".into()), &ts(), 5_000);
    app.apply_event(AgentEvent::ReasoningToken("let me think...".into()), &ts(), 5_000);
    assert_eq!(app.messages.len(), 1);
    match &app.messages[0] {
        ChatMessage::Reasoning { content, .. } => {
            assert_eq!(content, "Hmm, let me think...");
        }
        other => panic!("expected Reasoning, got {other:?}"),
    }
}

// ── handle_key ────────────────────────────────────────────────────────────

#[test]
fn test_slash_exit_returns_exit_command() {
    let mut app = make_app();
    app.input = "/exit".into();
    app.input_cursor = 5;

    let result = submit_via_enter(&mut app);
    assert!(matches!(result, Some(TuiCommand::Exit)));
    assert!(app.should_quit);
}

#[test]
fn test_slash_new_returns_clear_command() {
    let mut app = make_app();
    app.messages.push(ChatMessage::User {
        content: "old".into(),
        timestamp: ts(),
    });
    app.input = "/new".into();
    app.input_cursor = 4;

    let result = submit_via_enter(&mut app);
    assert!(matches!(result, Some(TuiCommand::ClearConversation { .. })));
    // Local messages cleared, replaced with system confirmation
    assert_eq!(app.messages.len(), 1);
    match &app.messages[0] {
        ChatMessage::System { content, .. } => {
            assert!(content.contains("New conversation"));
        }
        other => panic!("expected System, got {other:?}"),
    }
}

#[test]
fn test_slash_stats_returns_none() {
    let mut app = make_app();
    app.input = "/stats".into();
    app.input_cursor = 6;

    let result = submit_via_enter(&mut app);
    assert!(result.is_none()); // handled locally
    // welcome message + stats response
    assert_eq!(app.messages.len(), 2);
    match &app.messages[1] {
        ChatMessage::System { content, .. } => {
            assert!(content.contains("Messages"));
        }
        other => panic!("expected System, got {other:?}"),
    }
}

#[test]
fn test_normal_message_returns_run_agent() {
    let mut app = make_app();
    app.input = "hello".into();
    app.input_cursor = 5;

    let result = submit_via_enter(&mut app);
    assert!(matches!(result, Some(TuiCommand::RunAgent(msg)) if msg == "hello"));
    assert!(app.streaming);
    // Input cleared
    assert!(app.input.is_empty());
    assert_eq!(app.input_cursor, 0);
    // welcome message + user message
    assert_eq!(app.messages.len(), 2);
    match &app.messages[1] {
        ChatMessage::User { content, .. } => assert_eq!(content, "hello"),
        other => panic!("expected User, got {other:?}"),
    }
}

#[test]
fn test_ctrl_c_while_streaming_cancels() {
    let mut app = make_app();
    app.streaming = true;
    let key = KeyEvent::new(KeyCode::Char('c'), KeyModifiers::control());
    let result = app.handle_key(key, &facts());
    assert!(matches!(result, Some(TuiCommand::CancelGeneration)));
    assert!(!app.streaming);
}

#[test]
fn test_ctrl_c_while_idle_shows_hint_instead_of_exiting() {
    let mut app = make_app();
    let key = KeyEvent::new(KeyCode::Char('c'), KeyModifiers::control());
    let result = app.handle_key(key, &facts());
    // Nielsen #4: Ctrl+C means copy/cancel everywhere — never "quit".
    assert!(result.is_none());
    assert!(!app.should_quit);
    match app.messages.last() {
        Some(ChatMessage::System { content, .. }) => {
            assert!(content.contains("Ctrl+D"));
        }
        other => panic!("expected System hint, got {other:?}"),
    }
}

#[test]
fn test_ctrl_d_while_idle_exits() {
    let mut app = make_app();
    let key = KeyEvent::new(KeyCode::Char('d'), KeyModifiers::control());
    let result = app.handle_key(key, &facts());
    assert!(matches!(result, Some(TuiCommand::Exit)));
    assert!(app.should_quit);
}

#[test]
fn test_esc_while_streaming_cancels() {
    let mut app = make_app();
    app.streaming = true;
    let key = KeyEvent::new(KeyCode::Esc, KeyModifiers::none());
    let result = app.handle_key(key, &facts());
    assert!(matches!(result, Some(TuiCommand::CancelGeneration)));
    assert!(!app.streaming);
}

// ── Slash completion ──────────────────────────────────────────────────────

fn type_str(app: &mut App, s: &str) {
    for c in s.chars() {
        app.handle_key(KeyEvent::new(KeyCode::Char(c), KeyModifiers::none()), &facts());
    }
}

#[test]
fn test_slash_completion_activates_on_slash() {
    let mut app = make_app();
    type_str(&mut app, "/");
    let sc = app.slash_completion.as_ref().expect("popup should open");
    assert_eq!(sc.matches.len(), slash_commands().len());
    assert_eq!(sc.selected, 0);
}

#[test]
fn test_slash_completion_filters_by_prefix() {
    let mut app = make_app();
    type_str(&mut app, "/s");
    let sc = app
        .slash_completion
        .as_ref()
        .expect("popup should stay open");
    let names: Vec<&str> = sc.matches.iter().map(|c| c.name).collect();
    assert!(names.contains(&"save"));
    assert!(names.contains(&"stats"));
    assert!(names.contains(&"skill"));
    assert!(!names.contains(&"exit"));
}

#[test]
fn test_slash_completion_tab_accepts() {
    let mut app = make_app();
    type_str(&mut app, "/exi");
    app.handle_key(KeyEvent::new(KeyCode::Tab, KeyModifiers::none()), &facts());
    assert_eq!(app.input, "/exit ");
    assert!(app.slash_completion.is_none());
}

#[test]
fn test_slash_completion_arrow_navigation() {
    let mut app = make_app();
    type_str(&mut app, "/");
    app.handle_key(KeyEvent::new(KeyCode::Down, KeyModifiers::none()), &facts());
    assert_eq!(app.slash_completion.as_ref().unwrap().selected, 1);
    app.handle_key(KeyEvent::new(KeyCode::Up, KeyModifiers::none()), &facts());
    assert_eq!(app.slash_completion.as_ref().unwrap().selected, 0);
    // Up at the top stays put (no wrap).
    app.handle_key(KeyEvent::new(KeyCode::Up, KeyModifiers::none()), &facts());
    assert_eq!(app.slash_completion.as_ref().unwrap().selected, 0);
}

#[test]
fn test_slash_completion_esc_dismisses_until_text_changes() {
    let mut app = make_app();
    type_str(&mut app, "/");
    app.handle_key(KeyEvent::new(KeyCode::Esc, KeyModifiers::none()), &facts());
    assert!(app.slash_completion.is_none());
    assert!(app.slash_dismissed);
    // Typing more does not reopen the popup.
    type_str(&mut app, "ex");
    assert!(app.slash_completion.is_none());
    // Backspace signals a fresh session — typing reopens it.
    app.handle_key(KeyEvent::new(KeyCode::Backspace, KeyModifiers::none()), &facts());
    assert!(!app.slash_dismissed);
    type_str(&mut app, "x");
    assert!(app.slash_completion.is_some());
}

#[test]
fn test_slash_completion_enter_submits_argless_command() {
    let mut app = make_app();
    type_str(&mut app, "/exi");
    let result = app.handle_key(KeyEvent::new(KeyCode::Enter, KeyModifiers::none()), &facts());
    assert!(matches!(result, Some(TuiCommand::Exit)));
    assert!(app.should_quit);
}

#[test]
fn test_slash_completion_enter_only_accepts_command_with_args() {
    let mut app = make_app();
    type_str(&mut app, "/sa");
    let result = app.handle_key(KeyEvent::new(KeyCode::Enter, KeyModifiers::none()), &facts());
    // `/save <name>` requires an argument — accepted, not submitted.
    assert!(result.is_none());
    assert_eq!(app.input, "/save ");
    assert!(app.slash_completion.is_none());
}

#[test]
fn test_slash_completion_closes_on_no_match() {
    let mut app = make_app();
    type_str(&mut app, "/zzz");
    assert!(app.slash_completion.is_none());
}

#[test]
fn test_slash_completion_not_in_streaming() {
    let mut app = make_app();
    app.streaming = true;
    type_str(&mut app, "/st");
    assert!(app.slash_completion.is_none());
}

// ── Help overlay ──────────────────────────────────────────────────────────

#[test]
fn test_help_opens_on_question_mark_when_idle() {
    let mut app = make_app();
    app.handle_key(KeyEvent::new(KeyCode::Char('?'), KeyModifiers::none()), &facts());
    assert!(app.show_help);
    assert!(app.input.is_empty()); // '?' was not inserted
}

#[test]
fn test_help_question_mark_inserts_when_input_nonempty() {
    let mut app = make_app();
    type_str(&mut app, "what");
    app.handle_key(KeyEvent::new(KeyCode::Char('?'), KeyModifiers::none()), &facts());
    assert!(!app.show_help);
    assert_eq!(app.input, "what?");
}

#[test]
fn test_help_not_opened_while_streaming() {
    let mut app = make_app();
    app.streaming = true;
    app.handle_key(KeyEvent::new(KeyCode::Char('?'), KeyModifiers::none()), &facts());
    assert!(!app.show_help);
    assert_eq!(app.input, "?");
}

#[test]
fn test_help_dismiss_and_swallow() {
    let mut app = make_app();
    app.show_help = true;
    // Unrelated keys are swallowed, help stays open.
    app.handle_key(KeyEvent::new(KeyCode::Char('x'), KeyModifiers::none()), &facts());
    assert!(app.show_help);
    assert!(app.input.is_empty());
    // Esc closes.
    app.handle_key(KeyEvent::new(KeyCode::Esc, KeyModifiers::none()), &facts());
    assert!(!app.show_help);
}

#[test]
fn test_help_f1_toggles() {
    let mut app = make_app();
    app.handle_key(KeyEvent::new(KeyCode::F(1), KeyModifiers::none()), &facts());
    assert!(app.show_help);
    app.handle_key(KeyEvent::new(KeyCode::F(1), KeyModifiers::none()), &facts());
    assert!(!app.show_help);
}

// ── Shell confirmation (ShellFilter integration) ──────────────────────────

#[test]
fn test_bang_auto_approved_runs_directly() {
    let mut app = make_app();
    app.input = "!echo hello".into();
    app.input_cursor = app.input.len();
    let result = submit_via_enter(&mut app);
    assert!(matches!(result, Some(TuiCommand::RunShell(cmd)) if cmd == "echo hello"));
    assert!(app.pending_shell_confirm.is_none());
}

#[test]
fn test_bang_blocked_is_rejected_with_reason() {
    let mut app = make_app();
    app.input = "!sudo rm -rf /".into();
    app.input_cursor = app.input.len();
    let result = submit_via_enter(&mut app);
    assert!(result.is_none());
    assert!(app.pending_shell_confirm.is_none());
    match app.messages.last() {
        Some(ChatMessage::Error { content, .. }) => {
            assert!(content.contains("Blocked by sandbox policy"));
        }
        other => panic!("expected Error, got {other:?}"),
    }
}

#[test]
fn test_bang_requires_approval_enters_confirm_mode() {
    let mut app = make_app();
    app.input = "!curl https://example.com".into();
    app.input_cursor = app.input.len();
    let result = submit_via_enter(&mut app);
    assert!(result.is_none());
    assert_eq!(
        app.pending_shell_confirm.as_deref(),
        Some("curl https://example.com")
    );
}

#[test]
fn test_shell_confirm_y_executes() {
    let mut app = make_app();
    app.pending_shell_confirm = Some("curl https://example.com".into());
    let result = app.handle_key(KeyEvent::new(KeyCode::Char('y'), KeyModifiers::none()), &facts());
    assert!(
        matches!(result, Some(TuiCommand::RunShell(cmd)) if cmd == "curl https://example.com")
    );
    assert!(app.pending_shell_confirm.is_none());
}

#[test]
fn test_shell_confirm_n_cancels() {
    let mut app = make_app();
    app.pending_shell_confirm = Some("curl https://example.com".into());
    let result = app.handle_key(KeyEvent::new(KeyCode::Char('n'), KeyModifiers::none()), &facts());
    assert!(result.is_none());
    assert!(app.pending_shell_confirm.is_none());
    match app.messages.last() {
        Some(ChatMessage::System { content, .. }) => {
            assert!(content.contains("cancelled"));
        }
        other => panic!("expected System, got {other:?}"),
    }
}

#[test]
fn test_shell_confirm_swallows_other_keys() {
    let mut app = make_app();
    app.pending_shell_confirm = Some("curl https://example.com".into());
    let result = app.handle_key(KeyEvent::new(KeyCode::Char('x'), KeyModifiers::none()), &facts());
    assert!(result.is_none());
    assert!(app.pending_shell_confirm.is_some()); // still pending
}

// ── Ctrl+R retry ──────────────────────────────────────────────────────────

#[test]
fn test_ctrl_r_retries_last_submission() {
    let mut app = make_app();
    app.input = "hello agent".into();
    app.input_cursor = app.input.len();
    let result = submit_via_enter(&mut app);
    assert!(matches!(result, Some(TuiCommand::RunAgent(_))));
    assert_eq!(app.last_submitted_input.as_deref(), Some("hello agent"));

    // Simulate the run ending (failed), then retry.
    app.streaming = false;
    let msg_count_before = app.messages.len();
    let result = app.handle_key(KeyEvent::new(KeyCode::Char('r'), KeyModifiers::control()), &facts());
    assert!(matches!(result, Some(TuiCommand::RunAgent(m)) if m == "hello agent"));
    assert!(app.streaming);
    assert_eq!(app.messages.len(), msg_count_before + 1); // user msg re-shown
}

#[test]
fn test_ctrl_r_without_last_submission_is_noop() {
    let mut app = make_app();
    let result = app.handle_key(KeyEvent::new(KeyCode::Char('r'), KeyModifiers::control()), &facts());
    assert!(result.is_none());
    assert!(!app.streaming);
}

#[test]
fn test_ctrl_r_ignored_while_streaming() {
    let mut app = make_app();
    app.last_submitted_input = Some("hello".into());
    app.streaming = true;
    let result = app.handle_key(KeyEvent::new(KeyCode::Char('r'), KeyModifiers::control()), &facts());
    assert!(result.is_none());
}

// ── Error message hints ───────────────────────────────────────────────────

#[test]
fn test_improve_error_message_api_key() {
    let out = improve_error_message("HTTP 401 Unauthorized");
    assert!(out.contains("DEEPSEEK_API"));
}

#[test]
fn test_improve_error_message_timeout() {
    let out = improve_error_message("request timed out after 30s");
    assert!(out.contains("network"));
}

#[test]
fn test_improve_error_message_rate_limit() {
    let out = improve_error_message("429 Too Many Requests: rate limit exceeded");
    assert!(out.contains("wait"));
}

#[test]
fn test_improve_error_message_passthrough() {
    let out = improve_error_message("something completely unexpected");
    assert_eq!(out, "something completely unexpected");
}

#[test]
fn test_run_failed_includes_retry_hint() {
    let mut app = make_app();
    app.apply_event(AgentEvent::RunFailed {
        error: "boom".into(),
    }, &ts(), 5_000);
    match app.messages.last() {
        Some(ChatMessage::Error { content, .. }) => {
            assert!(content.contains("Ctrl+R"));
        }
        other => panic!("expected Error, got {other:?}"),
    }
}

#[test]
fn test_page_up_increases_scroll_offset() {
    let mut app = make_app();
    app.scroll_offset = 0;
    app.auto_scroll = true;
    let key = KeyEvent::new(KeyCode::PageUp, KeyModifiers::none());
    app.handle_key(key, &facts());
    assert_eq!(app.scroll_offset, 8);
    assert!(!app.auto_scroll);
}

#[test]
fn test_page_down_decreases_scroll_offset() {
    let mut app = make_app();
    app.scroll_offset = 10;
    app.auto_scroll = false;
    let key = KeyEvent::new(KeyCode::PageDown, KeyModifiers::none());
    app.handle_key(key, &facts());
    assert_eq!(app.scroll_offset, 2);
    assert!(!app.auto_scroll);
}

#[test]
fn test_page_down_to_zero_reenables_autoscroll() {
    let mut app = make_app();
    app.scroll_offset = 4;
    app.auto_scroll = false;
    let key = KeyEvent::new(KeyCode::PageDown, KeyModifiers::none());
    app.handle_key(key, &facts());
    assert_eq!(app.scroll_offset, 0);
    assert!(app.auto_scroll);
}

#[test]
fn test_character_insertion() {
    let mut app = make_app();
    let key = KeyEvent::new(KeyCode::Char('x'), KeyModifiers::none());
    app.handle_key(key, &facts());
    assert_eq!(app.input, "x");
    assert_eq!(app.input_cursor, 1);
}

#[test]
fn test_backspace_deletes() {
    let mut app = make_app();
    app.input = "ab".into();
    app.input_cursor = 1;
    let key = KeyEvent::new(KeyCode::Backspace, KeyModifiers::none());
    app.handle_key(key, &facts());
    assert_eq!(app.input, "b");
    assert_eq!(app.input_cursor, 0);
}

#[test]
fn test_left_right_movement() {
    let mut app = make_app();
    app.input = "abc".into();
    app.input_cursor = 1;

    app.handle_key(KeyEvent::new(KeyCode::Right, KeyModifiers::none()), &facts());
    assert_eq!(app.input_cursor, 2);

    app.handle_key(KeyEvent::new(KeyCode::Left, KeyModifiers::none()), &facts());
    assert_eq!(app.input_cursor, 1);
}

// ── Bang command tests ────────────────────────────────────────────────────

#[test]
fn test_bang_command_returns_run_shell() {
    let mut app = make_app();
    app.input = "!echo hello".into();
    app.input_cursor = 11;

    let result = submit_via_enter(&mut app);
    assert!(
        matches!(result, Some(TuiCommand::RunShell(ref cmd)) if cmd == "echo hello"),
        "expected RunShell(\"echo hello\"), got another command"
    );
    assert!(!app.streaming);
    assert!(app.input.is_empty());
    assert_eq!(app.input_cursor, 0);
}

#[test]
fn test_apply_shell_output_creates_message() {
    let mut app = make_app();
    app.messages.clear();
    // User !command now uses unified ToolCall with origin: User
    app.apply_event(AgentEvent::ToolCall {
        id: "shell-1".into(),
        name: "shell".into(),
        arguments: "echo test".into(),
        origin: CallOrigin::User,
    }, &ts(), 5_000);
    app.apply_event(AgentEvent::ToolSuccessful {
        id: "shell-1".into(),
        name: "shell".into(),
        output: "test".into(),
    }, &ts(), 5_000);
    assert_eq!(app.messages.len(), 1);
    match &app.messages[0] {
        ChatMessage::ToolCall {
            name,
            args,
            state,
            origin,
            ..
        } => {
            assert_eq!(name, "shell");
            assert_eq!(args, "echo test");
            assert!(matches!(origin, CallOrigin::User));
            match state {
                ToolCallState::Complete(output) => assert!(output.contains("test")),
                ToolCallState::Running => panic!("expected Complete"),
                ToolCallState::Error(_) => panic!("expected Complete, got Error"),
                ToolCallState::Rejected(_) => panic!("expected Complete, got Rejected"),
            }
        }
        other => panic!("expected ToolCall, got {other:?}"),
    }
}

#[test]
fn test_bang_empty_command_shows_help() {
    let mut app = make_app();
    app.messages.clear();
    app.input = "!".into();
    app.input_cursor = 1;

    let result = submit_via_enter(&mut app);
    assert!(result.is_none());
    assert_eq!(app.messages.len(), 1);
    match &app.messages[0] {
        ChatMessage::System { content, .. } => {
            assert!(content.contains("Usage"), "got: {content}");
        }
        other => panic!("expected System, got {other:?}"),
    }
}

#[test]
fn test_double_bang_not_treated_as_command() {
    let mut app = make_app();
    app.messages.clear();
    app.input = "!!echo".into();
    app.input_cursor = 6;

    let result = submit_via_enter(&mut app);
    // !! should be treated as a normal message, triggering RunAgent
    assert!(matches!(result, Some(TuiCommand::RunAgent(_))));
}

#[test]
fn test_bang_command_whitespace_only() {
    let mut app = make_app();
    app.messages.clear();
    app.input = "!   ".into();
    app.input_cursor = 4;

    let result = submit_via_enter(&mut app);
    assert!(result.is_none());
    // Empty command after trimming should show usage hint
    match &app.messages[0] {
        ChatMessage::System { content, .. } => {
            assert!(content.contains("Usage"), "got: {content}");
        }
        other => panic!("expected System, got {other:?}"),
    }
}

// ── The trace panel ───────────────────────────────────────────────────────

fn press(app: &mut App, code: KeyCode, modifiers: KeyModifiers) -> Option<TuiCommand> {
    app.handle_key(KeyEvent::new(code, modifiers), &facts())
}

fn enter(app: &mut App, command: &str) -> Option<TuiCommand> {
    app.input = command.to_string();
    app.input_cursor = command.len();
    submit_via_enter(app)
}

#[test]
fn slash_debug_toggles_the_panel() {
    let mut app = make_app();
    assert!(!app.debug.visible);
    assert!(enter(&mut app, "/debug").is_none());
    assert!(app.debug.visible);
    assert!(app.messages.iter().all(|m| !matches!(m, ChatMessage::Error { .. })));
    assert!(enter(&mut app, "/debug").is_none());
    assert!(!app.debug.visible);
}

#[test]
fn ctrl_o_toggles_the_panel() {
    let mut app = make_app();
    assert!(press(&mut app, KeyCode::Char('o'), KeyModifiers::control()).is_none());
    assert!(app.debug.visible);
    assert_eq!(app.input, "");
    press(&mut app, KeyCode::Char('o'), KeyModifiers::control());
    assert!(!app.debug.visible);
}

#[test]
fn the_open_panel_takes_the_arrows_and_escape() {
    let mut app = make_app();
    app.debug.sync((0..5).map(|step| TraceEvent::StepStarted { step }).collect());
    press(&mut app, KeyCode::Char('o'), KeyModifiers::control());
    let top = app.debug.scroll_offset;
    press(&mut app, KeyCode::Up, KeyModifiers::none());
    press(&mut app, KeyCode::Down, KeyModifiers::none());
    assert_eq!(app.debug.scroll_offset, top);
    type_str(&mut app, "hi");
    assert_eq!(app.input, "hi");
    press(&mut app, KeyCode::Esc, KeyModifiers::none());
    assert!(!app.debug.visible);
    assert_eq!(app.input, "hi");
}

#[test]
fn slash_trace_save_asks_for_the_file() {
    let mut app = make_app();
    assert!(matches!(enter(&mut app, "/trace-save"), Some(TuiCommand::SaveTrace)));
    app.trace_saved(Ok(".loomis/traces/1.jsonl".to_string()), &ts());
    match app.messages.last() {
        Some(ChatMessage::System { content, .. }) => {
            assert_eq!(content, "Trace saved to .loomis/traces/1.jsonl.");
        }
        other => panic!("expected System, got {other:?}"),
    }
    app.trace_saved(Err("disk full".to_string()), &ts());
    match app.messages.last() {
        Some(ChatMessage::Error { content, .. }) => {
            assert_eq!(content, "Failed to save the trace: disk full");
        }
        other => panic!("expected Error, got {other:?}"),
    }
}

#[test]
fn every_listed_command_is_known() {
    for command in slash_commands() {
        let mut app = make_app();
        let text = format!("/{}", command.name);
        if let Some(TuiCommand::RunAgent(message)) = enter(&mut app, &text) {
            assert_ne!(message, text, "not a command");
        }
    }
}

// ── Pastes ────────────────────────────────────────────────────────────────

#[test]
fn one_backspace_undoes_a_paste() {
    let mut app = make_app();
    type_str(&mut app, "see ");
    app.handle_paste("one\ntwo");
    assert_ne!(app.input, "see ");
    assert_eq!(app.paste_store.len(), 1);
    press(&mut app, KeyCode::Backspace, KeyModifiers::none());
    assert_eq!(app.input, "see ");
    assert_eq!(app.input_cursor, 4);
    assert_eq!(app.paste_store.len(), 0);
}

#[test]
fn a_pasted_command_is_a_message_whatever_else_is_kept() {
    let mut app = make_app();
    app.handle_paste("first\npaste");
    app.handle_paste("/exit\nnow");
    let both = app.input.clone();
    let second = both.strip_prefix("[Pasted text #1 +2 lines]").unwrap().to_string();
    match enter(&mut app, &second) {
        Some(TuiCommand::RunAgent(message)) => assert_eq!(message, "/exit\nnow"),
        other => panic!("expected RunAgent, got {other:?}"),
    }
    assert!(!app.should_quit);
}

// ── Test Helpers ──────────────────────────────────────────────────────────

/// Simulates Enter: calls handle_key with Enter, returns the command.
fn submit_via_enter(app: &mut App) -> Option<TuiCommand> {
    let key = KeyEvent::new(KeyCode::Enter, KeyModifiers::none());
    app.handle_key(key, &facts())
}
