//! What is drawn: estimates, the input, wrapping, and summaries.

use loomis::sandbox::config::SandboxConfig;
use loomis::sandbox::shell_filter::ShellFilter;
use loomis::tui::app::{App, AppConfig};
use loomis::tui::input_view::{build_input_lines, input_metrics};
use loomis::tui::keyboard::Platform;
use loomis::tui::messages::ChatMessage;
use loomis::tui::span::{line1, line2, raw, Line};
use loomis::tui::theme::{Color, Style};
use loomis::tui::ui::tool_resource_summary;
use loomis::tui::width::split_at_display_width;
use loomis::tui::wrap::{estimate_lines, wrap_to_width};
use ratatui::backend::TestBackend;
use ratatui::widgets::{Block, Borders, Paragraph};
use ratatui::{Frame, Terminal};
use unicode_width::UnicodeWidthStr;

fn ts() -> String {
    "00:00:00".into()
}

fn make_app() -> App {
    let config = SandboxConfig {
        auto_approve_prefixes: Vec::new(),
        deny_patterns: Vec::new(),
        allowed_binaries: Vec::new(),
        max_total_operations: 100,
        max_concurrent_shells: 5,
        audit_enabled: false,
    };
    App::new(
        AppConfig {
            model: "test-model".to_string(),
            tool_names: Vec::new(),
            plan_file: ".loomis/plan.md".to_string(),
            init_prompt: String::new(),
            skills: Vec::new(),
            shell_filter: ShellFilter::from_config(&config),
            platform: Platform::Other,
        },
        "00:00:00",
    )
}

fn color(c: Color) -> ratatui::style::Color {
    match c {
        Color::White => ratatui::style::Color::White,
        Color::Black => ratatui::style::Color::Black,
        Color::DarkGray => ratatui::style::Color::DarkGray,
        Color::Red => ratatui::style::Color::Red,
        _ => ratatui::style::Color::Cyan,
    }
}

/// The input of a screen of eighty columns and twenty-four rows.
fn draw_input(frame: &mut Frame, app: &App) {
    let lines: Vec<ratatui::text::Line> = app
        .input_lines(78)
        .iter()
        .map(|line| {
            let spans: Vec<ratatui::text::Span> = line
                .spans
                .iter()
                .map(|s| {
                    let mut style = ratatui::style::Style::default();
                    style.fg = s.style.fg.map(color);
                    style.bg = s.style.bg.map(color);
                    ratatui::text::Span::styled(s.content.clone(), style)
                })
                .collect();
            ratatui::text::Line::from(spans)
        })
        .collect();
    let block = Block::default().borders(Borders::ALL);
    let area = ratatui::layout::Rect { x: 0, y: 18, width: 80, height: 5 };
    frame.render_widget(Paragraph::new(lines).block(block), area);
}

#[test]
fn test_estimate_lines_empty() {
    let msg = ChatMessage::Assistant {
        content: String::new(),
        timestamp: ts(),
    };
    assert_eq!(estimate_lines(&msg, 80), 1); // at least 1
}

#[test]
fn test_estimate_lines_short() {
    let msg = ChatMessage::User {
        content: "hi".into(),
        timestamp: ts(),
    };
    assert_eq!(estimate_lines(&msg, 80), 1);
}

#[test]
fn test_estimate_lines_newlines() {
    let msg = ChatMessage::Assistant {
        content: "line1\nline2\nline3".into(),
        timestamp: ts(),
    };
    assert_eq!(estimate_lines(&msg, 80), 3);
}

#[test]
fn test_estimate_lines_wrapping() {
    let msg = ChatMessage::Assistant {
        content: "a".repeat(200),
        timestamp: ts(),
    };
    // 200 chars at width 80 → ceil(200/80) = 3
    assert_eq!(estimate_lines(&msg, 80), 3);
}

#[test]
fn test_cjk_estimate_lines() {
    // Chinese characters are 2 columns wide but 3 bytes each in UTF-8.
    // 10 Chinese chars = 30 bytes but 20 columns wide.
    let msg = ChatMessage::Assistant {
        content: "你好世界你好世界你好世界你好世界你好世界".into(), // 20 chars, 60 bytes, 40 cols
        timestamp: ts(),
    };
    // 40 columns at width 80 → 1 line (was 60/80=1 with byte length, same in this case)
    assert_eq!(estimate_lines(&msg, 80), 1);

    // Now test narrow width: 40 cols at width 30 → ceil(40/30) = 2
    assert_eq!(estimate_lines(&msg, 30), 2);
}

// ── input_metrics / build_input_lines tests ───────────────────────────────

#[test]
fn test_input_metrics_empty() {
    let m = input_metrics("", 0, 80);
    assert_eq!(m.rows, 1);
    assert_eq!(m.cursor_row, 0);
    assert_eq!(m.cursor_col, 2); // after the "> " prefix
}

#[test]
fn test_input_metrics_single_line() {
    let m = input_metrics("hello", 5, 80);
    assert_eq!(m.rows, 1);
    assert_eq!(m.cursor_row, 0);
    assert_eq!(m.cursor_col, 7); // 2 prefix + 5 text
}

#[test]
fn test_input_metrics_wrapped() {
    // width 10 → first chunk 8 (prefix leaves 8), continuation 10.
    let text = "0123456789abc"; // 13 wide → 2 rows
    let m = input_metrics(text, text.len(), 10);
    assert_eq!(m.rows, 2);
    assert_eq!(m.cursor_row, 1);
    assert_eq!(m.cursor_col, 5); // "89abc" is 5 wide, no prefix on row 1

    // Cursor exactly at the first-chunk boundary (byte 8) — the block
    // cursor covers '8', the first char of the continuation row.
    let m = input_metrics(text, 8, 10);
    assert_eq!(m.cursor_row, 1);
    assert_eq!(m.cursor_col, 0);

    // One char past the boundary → row 1, column 1.
    let m = input_metrics(text, 9, 10);
    assert_eq!(m.cursor_row, 1);
    assert_eq!(m.cursor_col, 1);
}

#[test]
fn test_input_metrics_multi_line() {
    let m = input_metrics("ab\ncd", 5, 80);
    assert_eq!(m.rows, 2);
    assert_eq!(m.cursor_row, 1);
    assert_eq!(m.cursor_col, 4); // 2 prefix + "cd"

    // Cursor on the first line.
    let m = input_metrics("ab\ncd", 1, 80);
    assert_eq!(m.cursor_row, 0);
    assert_eq!(m.cursor_col, 3);
}

#[test]
fn test_input_metrics_trailing_newline() {
    // "a\n" = line "a" + empty line — the cursor at the end sits on the
    // empty second row.
    let m = input_metrics("a\n", 2, 80);
    assert_eq!(m.rows, 2);
    assert_eq!(m.cursor_row, 1);
    assert_eq!(m.cursor_col, 2);
}

#[test]
fn test_input_metrics_cjk() {
    // 你好世界 = 8 display cols; width 4 → first chunk 2 → "你" | "好世" | "界".
    let text = "你好世界";
    let m = input_metrics(text, text.len(), 4);
    assert_eq!(m.rows, 3);
    assert_eq!(m.cursor_row, 2);
    assert_eq!(m.cursor_col, 2); // "界" is 2 wide, no prefix on row 2
}

#[test]
fn joined_emoji_are_counted_one_by_one() {
    // Drawn together the three faces take two columns; one by one, six.
    let text = "👨\u{200d}👩\u{200d}👧";
    let cursor = text.len();
    let m = input_metrics(text, cursor, 7);
    assert_eq!(m.rows, 2);
    assert_eq!(m.cursor_row, 1);
    let lines = build_input_lines(text, cursor, Style::plain(), 7);
    assert_eq!(lines.len(), 2);
}

#[test]
fn a_split_counts_each_character() {
    // The faces count one by one, though they are drawn in two columns.
    let family = "👨\u{200d}👩\u{200d}👧";
    assert_eq!(split_at_display_width(family, 5), ("👨\u{200d}👩\u{200d}".into(), "👧".into()));
    // The selector would widen the heart beyond the limit.
    let (first, rest) = split_at_display_width("abc\u{2764}\u{fe0f}", 4);
    assert_eq!((first.as_str(), rest.as_str()), ("abc\u{2764}", "\u{fe0f}"));
}

#[test]
fn input_rows_fit_where_a_selector_widens_a_character() {
    let text = "abcdef\u{2764}\u{fe0f}ghijklm\u{2764}\u{fe0f}";
    for width in 6..14u16 {
        // The cursor is behind the end, so that no row carries it.
        let lines = build_input_lines(text, text.len() + 1, Style::plain(), width);
        for line in &lines {
            let shown: String = line.spans.iter().map(|s| s.content.as_str()).collect();
            assert!(UnicodeWidthStr::width(shown.as_str()) <= width as usize, "row {shown:?}");
        }
    }
}

#[test]
fn test_build_input_lines_matches_metrics() {
    // Rendering must produce exactly as many rows as input_metrics counts.
    let style = Style::plain();
    let cases = [
        ("", 0usize, 80u16),
        ("hello", 5, 80),
        ("0123456789abc", 13, 10),
        ("0123456789abc", 8, 10),
        ("0123456789abc", 9, 10),
        ("0123456789abcdef", 3, 10), // cursor in first chunk of a 2-chunk line
        ("ab\ncd", 5, 80),
        ("a\n", 2, 80),
        ("你好世界", 12, 4),
    ];
    for (text, cursor, width) in cases {
        let m = input_metrics(text, cursor, width);
        let lines = build_input_lines(text, cursor, style, width);
        assert_eq!(lines.len(), m.rows, "rows mismatch for {text:?}");
        // Every row fits the width (prefix row: 2 + text ≤ width).
        for (i, line) in lines.iter().enumerate() {
            let total: usize = line
                .spans
                .iter()
                .map(|s| UnicodeWidthStr::width(s.content.as_str()))
                .sum();
            assert!(
                total <= width as usize,
                "row {i} too wide: {total} > {width}"
            );
        }
    }
}

#[test]
fn test_build_input_lines_highlights_cursor() {
    let style = Style::plain().on(Color::Red);
    let lines = build_input_lines("hello", 2, style, 80);
    assert_eq!(lines.len(), 1);
    let spans = &lines[0].spans;
    // ["> " prefix, "he", highlighted "l", "lo"]
    assert_eq!(spans.len(), 4);
    assert_eq!(spans[2].style.bg, Some(Color::Red));
    assert_eq!(spans[2].content.as_str(), "l");
}

#[test]
fn test_build_input_lines_wrapped_cursor_row() {
    let style = Style::plain();
    // Cursor at the end of a wrapped line: trailing-space cursor on row 1.
    let lines = build_input_lines("0123456789abc", 13, style, 10);
    assert_eq!(lines.len(), 2);
    assert_eq!(lines[0].spans[1].content.as_str(), "01234567");
    assert_eq!(lines[1].spans[0].content.as_str(), "89abc");
    // Row 1 ends with the cursor space.
    assert_eq!(lines[1].spans.last().unwrap().content.as_str(), " ");
}

#[test]
fn test_build_input_lines_cursor_in_non_terminal_wrapped_chunk() {
    // Regression: a cursor in an early chunk must NOT bleed into later
    // chunks of the same wrapped line (missing lower-bound check caused
    // `line[offset..cursor]` slice panics and phantom cursor highlights).
    let style = Style::plain().on(Color::Red);
    // width=10 → first_cap=8, w=10. 16 chars → two chunks:
    // "01234567" + "89abcdef". Cursor at byte 3 belongs to chunk 1 only.
    let lines = build_input_lines("0123456789abcdef", 3, style, 10);
    assert_eq!(lines.len(), 2);
    // Row 0: prefix, "012", highlighted "3", "4567".
    assert_eq!(lines[0].spans.len(), 4, "first chunk should have cursor");
    assert_eq!(lines[0].spans[2].content.as_str(), "3");
    assert_eq!(lines[0].spans[2].style.bg, Some(Color::Red));
    // Row 1 must be entirely plain — no cursor highlight.
    let second_has_cursor = lines[1]
        .spans
        .iter()
        .any(|s| s.style.bg == Some(Color::Red));
    assert!(!second_has_cursor, "second chunk should not have cursor");
}

#[test]
fn test_input_metrics_cjk_cursor_col_with_prefix() {
    // `cursor_col` includes the 2-col prompt prefix on row 0; the
    // hardware cursor formula adds only the 1-col border on top.
    let m = input_metrics("你好", "你好".len(), 80);
    assert_eq!(m.rows, 1);
    assert_eq!(m.cursor_row, 0);
    assert_eq!(m.cursor_col, 2 + 4); // 2 prefix + 4 CJK display cols

    // Cursor after "你" (2 display cols): 2 prefix + 2 = 4.
    let m = input_metrics("你好", "你".len(), 80);
    assert_eq!(m.cursor_col, 2 + 2);
}

#[test]
fn test_build_input_lines_cjk_delete_scenario() {
    // Post-Delete state: was "你好世界" (12 bytes), Delete at byte 3
    // removed "好", leaving "你世界" (9 bytes) with the cursor still at
    // byte 3 — now on "世". The cursor highlight must land on "世".
    let style = Style::plain().on(Color::Red);
    let lines = build_input_lines("你世界", 3, style, 80);
    assert_eq!(lines.len(), 1);
    let spans = &lines[0].spans;
    // prefix, "你", highlighted "世", "界"
    assert_eq!(spans.len(), 4);
    assert_eq!(spans[2].content.as_str(), "世");
    assert_eq!(spans[2].style.bg, Some(Color::Red));
    assert_eq!(spans[3].content.as_str(), "界");
}

#[test]
fn test_build_input_lines_wide_char_trailing_ghost_guard() {
    // Regression: deleting the last CJK char leaves the wide char's
    // right-half cell unchanged in the buffer, so ratatui's diff skips
    // it and the terminal shows a ghost half-character under the cursor
    // block. The trailing-space cursor must restyle that cell (visually
    // blank) to force a redraw. ASCII (1-col) trailing cursors stay one
    // cell — no guard needed.
    let style = Style::plain().on(Color::Red);

    // CJK end-of-line: cursor space + ghost-guard cell.
    let lines = build_input_lines("你好世", 9, style, 80);
    let spans = &lines[0].spans;
    assert_eq!(spans.len(), 4); // prefix, 你好世, cursor " ", guard " "
    assert_eq!(spans[2].content.as_str(), " ");
    assert_eq!(spans[2].style.bg, Some(Color::Red));
    assert_eq!(spans[3].content.as_str(), " ");
    // The guard is visually blank (no bg) but carries a fg so the
    // buffer cell differs from the plain " " it replaces.
    assert_eq!(spans[3].style.bg, None);
    assert_ne!(spans[3].style.fg, None);

    // ASCII end-of-line: cursor space only, no guard.
    let lines = build_input_lines("hell", 4, style, 80);
    let spans = &lines[0].spans;
    assert_eq!(spans.len(), 3); // prefix, hell, cursor " "
    assert_eq!(spans[2].content.as_str(), " ");

    // Cursor mid-string (on a CJK char): no trailing space at all.
    let lines = build_input_lines("你好世界", 3, style, 80);
    let spans = &lines[0].spans;
    assert_eq!(spans.len(), 4); // prefix, 你, cursor 好, 世界
}

#[test]
fn test_cjk_delete_clears_wide_char_trailing_cell() {
    let mut app = make_app();
    app.input = "你好世界".into();
    app.input_cursor = 9;
    let backend = TestBackend::new(80, 24);
    let mut terminal = Terminal::new(backend).unwrap();
    terminal.draw(|f| draw_input(f, &app)).unwrap();
    let before = terminal.backend().buffer().cell((9, 19)).unwrap().clone();

    // Delete removes "界"; the cursor stays at the end of "你好世".
    app.input.truncate(9);
    terminal.draw(|f| draw_input(f, &app)).unwrap();
    let buf = terminal.backend().buffer();
    let after_cursor = buf.cell((9, 19)).unwrap().clone();
    let after_right = buf.cell((10, 19)).unwrap().clone();

    assert_eq!(after_cursor.symbol(), " ");
    assert!(after_cursor.style().bg.is_some());
    assert_ne!(
        after_right.style().fg,
        before.style().fg,
        "wide char's right-half cell must change to force a redraw"
    );
    assert_eq!(after_right.symbol(), " ");
    assert_ne!(
        after_right.style().bg,
        Some(ratatui::style::Color::Red),
        "guard cell stays visually blank (no cursor background)"
    );
}

#[test]
fn test_split_at_display_width_empty() {
    assert_eq!(split_at_display_width("", 80), (String::new(), String::new()));
}

#[test]
fn test_split_at_display_width_fits() {
    let (before, after) = split_at_display_width("hello", 80);
    assert_eq!(before, "hello");
    assert_eq!(after, "");
}

#[test]
fn test_split_at_display_width_exact() {
    // "abcde" is 5 chars, each 1 column
    let (before, after) = split_at_display_width("abcde", 5);
    assert_eq!(before, "abcde");
    assert_eq!(after, "");
}

#[test]
fn test_split_at_display_width_overflow() {
    // 10 chars at width 5 → first 5 then remaining 5
    let (before, after) = split_at_display_width("abcdefghij", 5);
    assert_eq!(before, "abcde");
    assert_eq!(after, "fghij");
}

#[test]
fn test_split_at_display_width_cjk() {
    // Chinese chars are 2 columns each
    let (before, after) = split_at_display_width("你好世界", 4);
    assert_eq!(before, "你好"); // 4 columns
    assert_eq!(after, "世界"); // 4 columns
}

#[test]
fn test_split_at_display_width_narrow() {
    // Force at least one char even if it doesn't fit
    let (before, after) = split_at_display_width("hello", 1);
    assert_eq!(before, "h");
    assert_eq!(after, "ello");
}

#[test]
fn test_wrap_to_width_no_wrap_needed() {
    let lines = vec![line1(raw("short"))];
    let wrapped = wrap_to_width(lines, 80);
    assert_eq!(wrapped.len(), 1);
}

#[test]
fn test_wrap_to_width_wraps_long_line() {
    // 20 chars at width 5 → 4 lines of 5 chars each
    let lines = vec![line1(raw("abcdefghijklmnopqrst"))];
    let wrapped = wrap_to_width(lines, 5);
    assert_eq!(wrapped.len(), 4);
    assert_eq!(wrapped[0].spans[0].content, "abcde");
    assert_eq!(wrapped[1].spans[0].content, "fghij");
    assert_eq!(wrapped[2].spans[0].content, "klmno");
    assert_eq!(wrapped[3].spans[0].content, "pqrst");
}

#[test]
fn test_wrap_to_width_cjk() {
    // 6 Chinese chars = 12 columns. At width 4 → 3 lines of 2 chars each.
    let lines = vec![line1(raw("你好世界测试"))];
    let wrapped = wrap_to_width(lines, 4);
    assert_eq!(wrapped.len(), 3);
    // Each Chinese char is 2 columns, so 2 chars = 4 columns per line
    assert_eq!(wrapped[0].spans[0].content, "你好");
    assert_eq!(wrapped[1].spans[0].content, "世界");
    assert_eq!(wrapped[2].spans[0].content, "测试");
}

#[test]
fn test_wrap_to_width_mixed_lines() {
    let lines = vec![
        line1(raw("short")),
        line1(raw("abcdefghij")), // 10 chars
    ];
    let wrapped = wrap_to_width(lines, 5);
    // "short" fits, "abcdefghij" → 2 lines
    assert_eq!(wrapped.len(), 3);
}

fn text_of(lines: &[Line]) -> String {
    lines.iter().flat_map(|l| l.spans.iter()).map(|s| s.content.as_str()).collect()
}

#[test]
fn wrapped_rows_fit_where_a_selector_widens_a_character() {
    // With the selector behind it, the heart takes two columns instead of one.
    let text = "abcd\u{2764}\u{fe0f}efg\u{2764}\u{fe0f}";
    for width in 2..12u16 {
        let wrapped = wrap_to_width(vec![line1(raw(text))], width);
        for row in &wrapped {
            let shown = text_of(std::slice::from_ref(row));
            assert!(UnicodeWidthStr::width(shown.as_str()) <= width as usize, "row {shown:?}");
        }
        assert_eq!(text_of(&wrapped), text);
    }
}

#[test]
fn wrapping_keeps_spans_without_a_width_in_their_place() {
    let line = line2(raw("\u{200b}"), raw("abcdefgh"));
    let wrapped = wrap_to_width(vec![line], 3);
    assert_eq!(text_of(&wrapped), "\u{200b}abcdefgh");
    let line = line2(raw("ab"), raw("cdefgh"));
    assert_eq!(text_of(&wrap_to_width(vec![line], 4)), "abcdefgh");
}

// ── tool_resource_summary tests ───────────────────────────────────────────

#[test]
fn test_tool_resource_summary_read() {
    assert_eq!(
        tool_resource_summary("read", r#"{"file_path": "src/main.rs"}"#),
        Some("src/main.rs".into())
    );
}

#[test]
fn test_tool_resource_summary_shell() {
    assert_eq!(
        tool_resource_summary("shell", r#"{"command": "cargo build", "timeout_secs": 60}"#),
        Some("cargo build".into())
    );
}

#[test]
fn test_tool_resource_summary_grep() {
    assert_eq!(
        tool_resource_summary(
            "grep",
            r#"{"pattern": "fn main", "path_glob": "src/**/*.rs"}"#
        ),
        Some("fn main".into())
    );
}

#[test]
fn test_tool_resource_summary_ls_with_path() {
    assert_eq!(
        tool_resource_summary("ls", r#"{"path": "src/"}"#),
        Some("src/".into())
    );
}

#[test]
fn test_tool_resource_summary_ls_without_path() {
    assert_eq!(tool_resource_summary("ls", r#"{}"#), Some("root".into()));
}

#[test]
fn test_tool_resource_summary_ls_null_path() {
    assert_eq!(
        tool_resource_summary("ls", r#"{"path": null}"#),
        Some("root".into())
    );
}

#[test]
fn test_tool_resource_summary_calculator() {
    assert_eq!(
        tool_resource_summary("calculator", r#"{"expression": "2 + 3 * 4"}"#),
        Some("2 + 3 * 4".into())
    );
}

#[test]
fn test_tool_resource_summary_echo() {
    assert_eq!(
        tool_resource_summary("echo", r#"{"text": "hello world"}"#),
        Some("hello world".into())
    );
}

#[test]
fn test_tool_resource_summary_todo() {
    assert_eq!(
        tool_resource_summary(
            "todo",
            r#"{"todos": [{"content": "a", "status": "pending", "active_form": "A"}]}"#
        ),
        Some("1 items".into())
    );
}

#[test]
fn test_tool_resource_summary_todo_multiple() {
    assert_eq!(
        tool_resource_summary("todo", r#"{"todos": [{}, {}, {}]}"#),
        Some("3 items".into())
    );
}

#[test]
fn test_tool_resource_summary_empty_args() {
    assert_eq!(tool_resource_summary("read", ""), None);
}

#[test]
fn test_tool_resource_summary_malformed_json() {
    assert_eq!(tool_resource_summary("read", "not json"), None);
}

#[test]
fn test_tool_resource_summary_unknown_tool() {
    assert_eq!(tool_resource_summary("unknown_tool", r#"{"x": "y"}"#), None);
}

#[test]
fn test_tool_resource_summary_truncation() {
    let long = "a".repeat(50);
    let json = format!(r#"{{"file_path": "{long}"}}"#);
    let result = tool_resource_summary("read", &json);
    assert!(result.is_some());
    let result = result.unwrap();
    assert!(result.len() < 50);
    assert!(result.ends_with('…'));
}

#[test]
fn test_tool_resource_summary_write() {
    assert_eq!(
        tool_resource_summary(
            "write",
            r##"{"file_path": "output.md", "content": "# Hello"}"##
        ),
        Some("output.md".into())
    );
}

#[test]
fn test_tool_resource_summary_glob() {
    assert_eq!(
        tool_resource_summary("glob", r#"{"pattern": "**/*.rs"}"#),
        Some("**/*.rs".into())
    );
}

#[test]
fn test_tool_resource_summary_subagent() {
    assert_eq!(
        tool_resource_summary(
            "subagent",
            r#"{"description": "search for bugs", "prompt": "..."}"#
        ),
        Some("search for bugs".into())
    );
}
