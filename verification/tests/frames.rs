//! The layout, the status bar, and the overlays.

use loomis::hooks::observability_hook::Metrics;
use loomis::sandbox::config::SandboxConfig;
use loomis::sandbox::shell_filter::ShellFilter;
use loomis::tools::todo::TodoItem;
use loomis::tui::app::{App, AppConfig, Rect};
use loomis::tui::frame::{chat_scroll, highlight, input_border, input_rows, InputMode};
use loomis::tui::keyboard::Platform;
use loomis::tui::messages::{
    slash_commands, CallOrigin, ChatMessage, SelectionState, SlashCompletionState, ThreadInfo,
    ThreadPicker, ToolCallState,
};
use loomis::tui::overlay::{
    centered, help_height, help_lines, picker_height, thread_picker_lines,
};
use loomis::tui::span::{line1, raw, Line};
use loomis::tui::status::{format_human, lay_out, StatusFacts};
use loomis::tui::theme;
use loomis::tui::ui::{markdown_request, message_to_lines};
use unicode_width::UnicodeWidthStr;

fn make_app() -> App {
    let config = SandboxConfig {
        auto_approve_prefixes: Vec::new(),
        deny_patterns: Vec::new(),
        allowed_binaries: Vec::new(),
        max_total_operations: 100,
        max_concurrent_shells: 5,
        audit_enabled: false,
    };
    App::new(
        AppConfig {
            model: "a-model-with-a-very-long-name".to_string(),
            tool_names: Vec::new(),
            plan_file: ".loomis/plan.md".to_string(),
            init_prompt: String::new(),
            skills: Vec::new(),
            shell_filter: ShellFilter::from_config(&config),
            platform: Platform::Other,
        },
        "00:00:00",
    )
}

fn facts() -> StatusFacts {
    StatusFacts {
        todos: Vec::new(),
        metrics: Metrics::fresh(),
        scaled_tokens: String::new(),
        now_ms: 10_000,
    }
}

fn content(line: &Line) -> String {
    line.spans.iter().map(|s| s.content.as_str()).collect()
}

fn columns(line: &Line) -> usize {
    line.spans.iter().map(|s| UnicodeWidthStr::width(s.content.as_str())).sum()
}

fn todo(status: &str, active: &str) -> TodoItem {
    TodoItem {
        content: "x".to_string(),
        status: status.to_string(),
        active_form: active.to_string(),
    }
}

// ── Layout ──────────────────────────────────────────────────────────────

#[test]
fn the_input_grows_within_bounds() {
    assert_eq!(input_rows(1, 40), 3);
    assert_eq!(input_rows(7, 40), 7);
    assert_eq!(input_rows(99, 40), 15);
    assert_eq!(input_rows(99, 10), 6);
    assert_eq!(input_rows(99, 2), 3);
    assert_eq!(input_rows(70_000, 40), 15);
}

#[test]
fn the_chat_shows_its_end_unless_scrolled() {
    assert_eq!(chat_scroll(100, 20, 0), 80);
    assert_eq!(chat_scroll(100, 20, 30), 50);
    assert_eq!(chat_scroll(100, 20, 500), 0);
    assert_eq!(chat_scroll(5, 20, 0), 0);
}

#[test]
fn selections_are_cut_at_their_ends() {
    let s = SelectionState { start_line: 4, start_col: 3, end_line: 2, end_col: 5, dragging: false };
    assert_eq!(highlight(&s, 1, 10), None);
    assert_eq!(highlight(&s, 2, 10), Some((5, 10)));
    assert_eq!(highlight(&s, 3, 10), Some((0, 10)));
    assert_eq!(highlight(&s, 4, 10), Some((0, 3)));
    assert_eq!(highlight(&s, 5, 10), None);
}

#[test]
fn the_chat_is_laid_out_and_remembered() {
    let mut app = make_app();
    app.messages.push(ChatMessage::User {
        content: "a".repeat(50),
        timestamp: "00:00:00".to_string(),
    });
    let rendered: Vec<Vec<Line>> = vec![Vec::new(), Vec::new()];
    let rows = app.layout_chat(&rendered, 20, 7);
    assert_eq!(app.total_rendered_lines, rows.len());
    assert_eq!(app.visible_chat_height, 7);
    assert!(rows.iter().all(|r| columns(r) <= 20));
    assert_eq!(app.chat_title(), " Chat — new ");
    app.conversation_title = Some("fix".to_string());
    assert_eq!(app.chat_title(), " Chat — fix ");
}

#[test]
fn the_input_says_what_it_is_for() {
    let mut app = make_app();
    assert_eq!(app.input_title(), " Input ");
    assert_eq!(input_border(app.input_mode()), theme::BORDER_INPUT);
    assert_eq!(app.input_lines(40).len(), 2);
    app.plan_active = true;
    assert_eq!(app.input_title(), " [PLAN] Input ");
    app.streaming = true;
    assert_eq!(app.input_mode(), InputMode::PlanInject);
    app.plan_active = false;
    assert_eq!(app.input_mode(), InputMode::Inject);
    app.pending_shell_confirm = Some("ls".to_string());
    assert_eq!(app.input_title(), " Confirm Shell ");
    assert_eq!(content(&app.input_lines(40)[1]), " y/Enter run  ·  n/Esc cancel");
    app.messages.push(ChatMessage::Intervene {
        request_id: "r".to_string(),
        title: "Which?".to_string(),
        description: String::new(),
        options: vec!["a".to_string()],
        responded: false,
        chosen: None,
        custom_text: None,
        timestamp: "00:00:00".to_string(),
    });
    assert_eq!(app.input_mode(), InputMode::Choose);
    app.intervene_text_mode = true;
    assert_eq!(app.input_mode(), InputMode::Answer);
}

// ── Messages ────────────────────────────────────────────────────────────

#[test]
fn stamps_stand_in_front_of_rendered_lines() {
    let msg = ChatMessage::Assistant {
        content: "*hi*".to_string(),
        timestamp: "01:02:03".to_string(),
    };
    assert_eq!(markdown_request(&msg, 40), Some(("*hi*".to_string(), 40)));
    let lines = message_to_lines(&msg, vec![line1(raw("hi")), line1(raw("there"))], 40, None, 0);
    assert_eq!(content(&lines[0]), "01:02:03 hi");
    assert_eq!(content(&lines[1]), "there");
}

#[test]
fn running_tools_show_what_they_work_on() {
    let msg = ChatMessage::ToolCall {
        id: "1".to_string(),
        name: "read".to_string(),
        args: r#"{"file_path":"src/main.rs"}"#.to_string(),
        state: ToolCallState::Running,
        origin: CallOrigin::Llm,
        progress_lines: vec!["half\nway".to_string()],
        timestamp: "01:02:03".to_string(),
    };
    let lines = message_to_lines(&msg, Vec::new(), 60, None, 0);
    assert_eq!(lines.len(), 2);
    assert!(content(&lines[0]).ends_with("read src/main.rs (running…)"));
    assert_eq!(content(&lines[1]), "       half");
}

// ── The status bar ──────────────────────────────────────────────────────

#[test]
fn the_bar_fills_the_screen() {
    let app = make_app();
    let line = app.status_line(&facts(), 120);
    assert_eq!(columns(&line), 120);
    assert!(content(&line).contains("| 1 msgs"));
    assert!(content(&line).ends_with("? help  "));
}

#[test]
fn hints_give_way_first() {
    let app = make_app();
    let line = app.status_line(&facts(), 40);
    assert!(content(&line).contains("msgs"));
    assert!(!content(&line).contains("help"));
}

#[test]
fn the_bar_shows_tasks_and_the_run() {
    let mut app = make_app();
    app.streaming = true;
    app.run_started_at = Some(4_000);
    app.plan_active = true;
    let mut f = facts();
    f.todos = vec![todo("completed", "A"), todo("in_progress", "Doing B"), todo("pending", "C")];
    f.metrics.run_started = true;
    f.metrics.steps = 2;
    f.metrics.llm_calls = 3;
    f.metrics.tool_calls = 4;
    f.metrics.total_tokens = 1_500;
    f.scaled_tokens = "1.5".to_string();
    let (left, accent, right) = app.build_status_content(&f);
    let left = content(&left);
    assert!(left.starts_with("  PLAN | "), "got {left}");
    assert!(left.contains("☐ 1/3 · ✍ Doing B | #2 · 3 LLM · 4 tools · 1.5K tok | "), "got {left}");
    assert!(accent.ends_with("thinking… 6s "), "got {accent}");
    assert_eq!(right, "Esc cancel · Enter inject  ");
}

#[test]
fn a_gap_is_left_even_where_nothing_fits() {
    let line = lay_out(line1(raw("0123456789")), "", "hint", false, 4);
    assert_eq!(content(&line), "0123456789 ");
}

#[test]
fn big_numbers_are_short() {
    assert_eq!(format_human(999, "", "k", "M"), "999");
    assert_eq!(format_human(2_500, "2.5", "k", "M"), "2.5k");
    assert_eq!(format_human(3_000_000, "3.0", "k", "M"), "3.0M");
}

// ── Overlays ────────────────────────────────────────────────────────────

fn thread(name: &str) -> ThreadInfo {
    ThreadInfo {
        name: name.to_string(),
        message_count: 7,
        total_chars: 1_200,
        saved_at: "today".to_string(),
    }
}

#[test]
fn popups_stand_in_the_middle() {
    let area = Rect { x: 0, y: 0, width: 100, height: 40 };
    assert_eq!(centered(area, 70, 14), Rect { x: 15, y: 13, width: 70, height: 14 });
    assert_eq!(centered(area, 200, 50), Rect { x: 0, y: 0, width: 200, height: 50 });
}

#[test]
fn the_picker_lists_conversations() {
    let picker = ThreadPicker { threads: vec![thread("one"), thread("two")], selected: 1 };
    assert_eq!(picker_height(&picker), 6);
    let lines =
        thread_picker_lines(&picker, &vec!["1.2".to_string(), "1.2".to_string()], 4);
    assert_eq!(lines.len(), 4);
    assert_eq!(
        content(&lines[0]),
        "   one                      7 msgs  1.2k   chars  today"
    );
    assert!(content(&lines[1]).starts_with(" ▶ two"));
    assert_eq!(content(&lines[2]), "");
    assert!(content(&lines[3]).contains("Enter select"));
    let many = ThreadPicker { threads: (0..30).map(|_| thread("x")).collect(), selected: 0 };
    assert_eq!(picker_height(&many), 14);
}

#[test]
fn the_selected_completion_is_in_view() {
    let all = slash_commands();
    let count = all.len();
    for selected in 0..count {
        let state = SlashCompletionState { matches: slash_commands(), selected };
        let lines = state.lines();
        assert_eq!(lines.len(), count.min(8));
        let marked: Vec<String> =
            lines.iter().map(content).filter(|l| l.starts_with(theme::ICON_SELECTED)).collect();
        assert_eq!(marked.len(), 1);
        assert!(marked[0].contains(all[selected].usage));
        let area = state.area(Rect { x: 2, y: 20, width: 100, height: 5 });
        assert_eq!(area, Rect { x: 2, y: 10, width: 60, height: 10 });
    }
}

#[test]
fn the_help_shows_every_command() {
    for platform in [Platform::MacOs, Platform::Other] {
        let text: Vec<String> = help_lines(platform).iter().map(content).collect();
        for command in slash_commands() {
            assert!(text.iter().any(|l| l.contains(command.usage) && l.contains(command.desc)));
        }
    }
    assert_eq!(help_lines(Platform::MacOs).len(), help_lines(Platform::Other).len() + 1);
    assert_eq!(help_height(24), 20);
    assert_eq!(help_height(100), 35);
    assert_eq!(help_height(3), 0);
}

#[test]
fn the_rows_of_all_messages_are_added_up() {
    let mut app = make_app();
    app.messages = vec![
        ChatMessage::Assistant {
            content: "0123456789".to_string(),
            timestamp: "00:00:00".to_string(),
        },
        ChatMessage::Error { content: "a\nb\n".to_string(), timestamp: "00:00:00".to_string() },
    ];
    app.rebuild_line_counts(4);
    assert_eq!(app.line_counts, vec![3, 2]);
    assert_eq!(app.total_lines(), 5);
}
