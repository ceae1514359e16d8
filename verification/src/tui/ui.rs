//! The lines of the chat area: how messages are drawn, wrapped and counted.

use vstd::prelude::*;
use crate::json;
use crate::json::{JsonField, JsonObject};
use crate::text;
use crate::tui::messages::{CallOrigin, ChatMessage, MessageView, ToolCallState, ToolCallStateView};
use crate::tui::span::{
    self, copy_line, line1, line2, line3, push_line, raw, styled, Line, Span, SpanView,
};
use crate::tui::theme;
use crate::tui::theme::Style;
use crate::tui::welcome;
use crate::tui::width;

verus! {

// ── Tool resource summary ───────────────────────────────────────────────

/// The widest summary, in columns.
pub const MAX_SUMMARY_WIDTH: usize = 40;

/// The argument that names the resource of a tool, where it is a string.
pub open spec fn resource_key(name: Seq<char>) -> Option<Seq<char>> {
    if name == "read"@ || name == "write"@ || name == "edit"@ {
        Some("file_path"@)
    } else if name == "glob"@ || name == "grep"@ {
        Some("pattern"@)
    } else if name == "shell"@ {
        Some("command"@)
    } else if name == "ask_user_question"@ || name == "ask_user"@ {
        Some("question"@)
    } else if name == "calculator"@ {
        Some("expression"@)
    } else if name == "echo"@ {
        Some("text"@)
    } else if name == "subagent"@ || name == "task"@ {
        Some("description"@)
    } else {
        None
    }
}

/// The argument that names the resource of a tool, where it is a string.
pub fn resource_key_of(name: &str) -> (r: Option<&'static str>)
    ensures
        match r {
            Some(k) => resource_key(name@) == Some(k@),
            None => resource_key(name@) is None,
        },
{
    if text::same_text(name, "read") || text::same_text(name, "write") || text::same_text(
        name,
        "edit",
    ) {
        Some("file_path")
    } else if text::same_text(name, "glob") || text::same_text(name, "grep") {
        Some("pattern")
    } else if text::same_text(name, "shell") {
        Some("command")
    } else if text::same_text(name, "ask_user_question") || text::same_text(name, "ask_user") {
        Some("question")
    } else if text::same_text(name, "calculator") {
        Some("expression")
    } else if text::same_text(name, "echo") {
        Some("text")
    } else if text::same_text(name, "subagent") || text::same_text(name, "task") {
        Some("description")
    } else {
        None
    }
}

/// The resource that a tool works on, out of the fields of its arguments:
/// a path, a pattern, a command; the number of items for the todo list; the
/// root where `ls` is given no path. Unknown tools have none.
pub open spec fn resource_summary(
    name: Seq<char>,
    fields: Seq<(Seq<char>, json::FieldView)>,
) -> Option<Seq<char>> {
    if name == "todo"@ {
        match json::lookup(fields, "todos"@) {
            Some(json::FieldView::List(n)) => Some(text::decimal(n) + " items"@),
            _ => None,
        }
    } else {
        let found = if name == "ls"@ {
            match json::lookup(fields, "path"@) {
                None => Some("root"@),
                Some(json::FieldView::Null) => Some("root"@),
                Some(json::FieldView::Text(s)) => Some(s),
                _ => None,
            }
        } else {
            match resource_key(name) {
                Some(key) => json::text_field(fields, key),
                None => None,
            }
        };
        match found {
            Some(s) => Some(width::truncated(s, MAX_SUMMARY_WIDTH as nat)),
            None => None,
        }
    }
}

/// The resource that the tool `name` works on, out of its arguments.
pub fn summarize_resource(name: &str, args: &JsonObject) -> (r: Option<String>)
    ensures
        match r {
            Some(s) => resource_summary(name@, args@) == Some(s@),
            None => resource_summary(name@, args@) is None,
        },
{
    if text::same_text(name, "todo") {
        return match args.get("todos") {
            Some(JsonField::List(items)) => Some(
                text::cat2(text::decimal_of(items.len() as u64).as_str(), " items"),
            ),
            _ => None,
        };
    }
    let found = if text::same_text(name, "ls") {
        match args.get("path") {
            None => Some("root".to_owned()),
            Some(JsonField::Null) => Some("root".to_owned()),
            Some(JsonField::Text(s)) => Some(s.clone()),
            _ => None,
        }
    } else {
        match resource_key_of(name) {
            Some(key) => args.get_text(key),
            None => None,
        }
    };
    match found {
        Some(s) => Some(width::truncate_to_width(s.as_str(), MAX_SUMMARY_WIDTH)),
        None => None,
    }
}

/// The summary for the arguments as they came: none where they are no JSON
/// object.
pub open spec fn call_summary(name: Seq<char>, args: Seq<char>) -> Option<Seq<char>> {
    if args.len() == 0 {
        None
    } else {
        match json::json_fields(args) {
            Some(fields) => resource_summary(name, fields),
            None => None,
        }
    }
}

/// A short summary of what a tool call works on, for display beside the
/// tool's name while it runs.
pub fn tool_resource_summary(name: &str, args_json: &str) -> (r: Option<String>)
    ensures
        match r {
            Some(s) => call_summary(name@, args_json@) == Some(s@),
            None => call_summary(name@, args_json@) is None,
        },
{
    if args_json.is_empty() {
        return None;
    }
    match JsonObject::parse(args_json) {
        Some(args) => summarize_resource(name, &args),
        None => None,
    }
}

// ── Messages to lines ───────────────────────────────────────────────────

/// The indent that aligns continuation lines with the text of the first.
pub const CONTINUATION: &'static str = "       ";

/// The timestamp in front of a message.
pub open spec fn stamp(timestamp: Seq<char>) -> SpanView {
    span::styled_view(timestamp + " "@, theme::ts_style())
}

fn stamp_span(timestamp: &str) -> (r: Span)
    ensures
        r@ == stamp(timestamp@),
{
    styled(text::cat2(timestamp, " ").as_str(), theme::ts_style())
}

/// The indent of a continuation line.
pub open spec fn indent() -> SpanView {
    span::styled_view(CONTINUATION@, Style::plain())
}

/// An icon in bold.
pub open spec fn icon(s: Seq<char>, color: theme::Color) -> SpanView {
    span::styled_view(s, Style::fg(color).bold())
}

/// The lines of a message whose first line carries `head`, and whose other
/// lines carry `rest`, in front of the text.
pub open spec fn headed_lines(
    lines: Seq<Seq<char>>,
    head: Seq<SpanView>,
    rest: Seq<SpanView>,
    style: Style,
) -> Seq<Seq<SpanView>> {
    Seq::new(
        lines.len(),
        |i: int|
            (if i == 0 {
                head
            } else {
                rest
            }).push(span::styled_view(lines[i], style)),
    )
}

fn build_headed(content: &str, head: Line, rest: Line, style: Style) -> (r: Vec<Line>)
    ensures
        span::lines_view(r@) == headed_lines(text::lines_of(content@), head@, rest@, style),
{
    let lines = text::lines(content);
    let ghost want = headed_lines(text::lines_of(content@), head@, rest@, style);
    let mut r: Vec<Line> = Vec::new();
    let mut i: usize = 0;
    assert(span::lines_view(r@) =~= want.take(0));
    while i < lines.len()
        invariant
            i <= lines@.len(),
            text::texts(lines@) == text::lines_of(content@),
            want == headed_lines(text::lines_of(content@), head@, rest@, style),
            span::lines_view(r@) == want.take(i as int),
        decreases lines@.len() - i,
    {
        assert(lines@[i as int]@ == text::texts(lines@)[i as int]);
        let mut line = if i == 0 {
            copy_line(&head)
        } else {
            copy_line(&rest)
        };
        line.push(styled(lines[i].as_str(), style));
        push_line(&mut r, line);
        i = i + 1;
        assert(span::lines_view(r@) =~= want.take(i as int));
    }
    assert(want.take(i as int) =~= want);
    r
}

/// Rendered lines with `head` in front of the first.
pub open spec fn stamped(lines: Seq<Seq<SpanView>>, head: SpanView) -> Seq<Seq<SpanView>> {
    if lines.len() == 0 {
        lines
    } else {
        lines.update(0, seq![head] + lines[0])
    }
}

/// Rendered lines with `head` in front of each.
pub open spec fn indented(lines: Seq<Seq<SpanView>>, head: SpanView) -> Seq<Seq<SpanView>> {
    Seq::new(lines.len(), |i: int| seq![head] + lines[i])
}

fn prefixed(head: Span, line: &Line) -> (r: Line)
    ensures
        r@ == seq![head@] + line@,
{
    let mut r = line1(head);
    let mut i: usize = 0;
    assert(line@.take(0) =~= Seq::<SpanView>::empty());
    assert(seq![head@] + Seq::<SpanView>::empty() =~= seq![head@]);
    while i < line.spans.len()
        invariant
            i <= line.spans@.len(),
            r@ == seq![head@] + line@.take(i as int),
        decreases line.spans@.len() - i,
    {
        r.push(Span { content: line.spans[i].content.clone(), style: line.spans[i].style });
        assert(line@.take(i + 1) =~= line@.take(i as int).push(line@[i as int]));
        i = i + 1;
        assert(r@ =~= seq![head@] + line@.take(i as int));
    }
    assert(line@.take(i as int) =~= line@);
    r
}

fn build_stamped(lines: Vec<Line>, timestamp: &str) -> (r: Vec<Line>)
    ensures
        span::lines_view(r@) == stamped(span::lines_view(lines@), stamp(timestamp@)),
{
    let mut r: Vec<Line> = Vec::new();
    let mut i: usize = 0;
    let ghost all = span::lines_view(lines@);
    let ghost want = stamped(all, stamp(timestamp@));
    assert(span::lines_view(r@) =~= want.take(0));
    while i < lines.len()
        invariant
            i <= lines@.len(),
            all == span::lines_view(lines@),
            want == stamped(all, stamp(timestamp@)),
            span::lines_view(r@) == want.take(i as int),
        decreases lines@.len() - i,
    {
        assert(lines@[i as int]@ == all[i as int]);
        if i == 0 {
            push_line(&mut r, prefixed(stamp_span(timestamp), &lines[i]));
        } else {
            push_line(&mut r, copy_line(&lines[i]));
        }
        i = i + 1;
        assert(span::lines_view(r@) =~= want.take(i as int));
    }
    assert(want.take(i as int) =~= want);
    r
}

/// The first line of `s`, or `s` itself where it has none.
pub open spec fn first_line(s: Seq<char>) -> Seq<char> {
    if text::lines_of(s).len() > 0 {
        text::lines_of(s)[0]
    } else {
        s
    }
}

fn first_line_of(s: &str) -> (r: String)
    ensures
        r@ == first_line(s@),
{
    let lines = text::lines(s);
    if lines.len() > 0 {
        assert(lines@[0]@ == text::texts(lines@)[0]);
        lines[0].clone()
    } else {
        s.to_owned()
    }
}

/// An indented, dimmed line.
pub open spec fn detail(s: Seq<char>, color: theme::Color) -> Seq<SpanView> {
    seq![indent(), span::styled_view(s, Style::fg(color).dim())]
}

fn detail_line(s: &str, color: theme::Color) -> (r: Line)
    ensures
        r@ == detail(s@, color),
{
    line2(raw(CONTINUATION), styled(s, Style::fg(color).dim()))
}

/// The lines of the progress messages of a running tool.
pub open spec fn progress(messages: Seq<Seq<char>>, width: int) -> Seq<Seq<SpanView>> {
    Seq::new(
        messages.len(),
        |i: int|
            detail(
                width::truncated(
                    first_line(messages[i]),
                    if width > 8 {
                        (width - 8) as nat
                    } else {
                        0
                    },
                ),
                theme::WARNING,
            ),
    )
}

fn push_progress(r: &mut Vec<Line>, messages: &Vec<String>, area_width: u16)
    ensures
        span::lines_view(final(r)@) == span::lines_view(old(r)@) + progress(
            text::texts(messages@),
            area_width as int,
        ),
{
    let ghost before = span::lines_view(r@);
    let ghost want = progress(text::texts(messages@), area_width as int);
    let limit: usize = if area_width > 8 {
        (area_width - 8) as usize
    } else {
        0
    };
    let mut i: usize = 0;
    assert(before + want.take(0) =~= before);
    while i < messages.len()
        invariant
            i <= messages@.len(),
            want == progress(text::texts(messages@), area_width as int),
            limit == (if area_width > 8 {
                area_width - 8
            } else {
                0
            }),
            span::lines_view(r@) == before + want.take(i as int),
        decreases messages@.len() - i,
    {
        assert(messages@[i as int]@ == text::texts(messages@)[i as int]);
        let shown = width::truncate_to_width(first_line_of(messages[i].as_str()).as_str(), limit);
        push_line(r, detail_line(shown.as_str(), theme::WARNING));
        i = i + 1;
        assert(span::lines_view(r@) =~= before + want.take(i as int));
    }
    assert(want.take(i as int) =~= want);
}

/// An indented line for each line of a command's output.
pub open spec fn output_lines(output: Seq<char>) -> Seq<Seq<SpanView>> {
    let lines = text::lines_of(output);
    Seq::new(lines.len(), |i: int| detail(lines[i], theme::TEXT_OUTPUT))
}

fn push_output(r: &mut Vec<Line>, output: &str)
    ensures
        span::lines_view(final(r)@) == span::lines_view(old(r)@) + output_lines(output@),
{
    let lines = text::lines(output);
    let ghost before = span::lines_view(r@);
    let ghost want = output_lines(output@);
    let mut i: usize = 0;
    assert(before + want.take(0) =~= before);
    while i < lines.len()
        invariant
            i <= lines@.len(),
            text::texts(lines@) == text::lines_of(output@),
            want == output_lines(output@),
            span::lines_view(r@) == before + want.take(i as int),
        decreases lines@.len() - i,
    {
        assert(lines@[i as int]@ == text::texts(lines@)[i as int]);
        push_line(r, detail_line(lines[i].as_str(), theme::TEXT_OUTPUT));
        i = i + 1;
        assert(span::lines_view(r@) =~= before + want.take(i as int));
    }
    assert(want.take(i as int) =~= want);
}

/// The `$ command` line of a command of the user.
pub open spec fn shell_header(timestamp: Seq<char>, args: Seq<char>) -> Seq<SpanView> {
    seq![
        stamp(timestamp),
        icon(theme::ICON_SHELL@, theme::SUCCESS),
        span::styled_view(args, Style::fg(theme::SUCCESS)),
    ]
}

fn shell_header_line(timestamp: &str, args: &str) -> (r: Line)
    ensures
        r@ == shell_header(timestamp@, args@),
{
    line3(
        stamp_span(timestamp),
        styled(theme::ICON_SHELL, Style::fg(theme::SUCCESS).bold()),
        styled(args, Style::fg(theme::SUCCESS)),
    )
}

/// The line with an icon and the name of a tool.
pub open spec fn tool_header(
    timestamp: Seq<char>,
    mark: Seq<char>,
    name: Seq<char>,
    color: theme::Color,
) -> Seq<SpanView> {
    seq![stamp(timestamp), icon(mark, color), icon(name, color)]
}

fn tool_header_line(timestamp: &str, mark: &str, name: &str, color: theme::Color) -> (r: Line)
    ensures
        r@ == tool_header(timestamp@, mark@, name@, color),
{
    line3(
        stamp_span(timestamp),
        styled(mark, Style::fg(color).bold()),
        styled(name, Style::fg(color).bold()),
    )
}

/// The line of a running tool: spinner, name, resource.
pub open spec fn running_header(
    timestamp: Seq<char>,
    name: Seq<char>,
    resource: Option<Seq<char>>,
    frame: int,
) -> Seq<SpanView> {
    let head = tool_header(timestamp, theme::spinner(frame) + " "@, name, theme::WARNING);
    let middle = match resource {
        Some(res) => seq![
            span::styled_view(" "@, Style::plain()),
            span::styled_view(res, Style::fg(theme::TEXT_PRIMARY).dim()),
        ],
        None => Seq::<SpanView>::empty(),
    };
    head + middle + seq![
        span::styled_view(" "@, Style::plain()),
        span::styled_view("(running…)"@, theme::ts_style()),
    ]
}

fn running_header_line(timestamp: &str, name: &str, args: &str, frame: usize) -> (r: Line)
    ensures
        r@ == running_header(timestamp@, name@, call_summary(name@, args@), frame as int),
{
    let resource = tool_resource_summary(name, args);
    let mark = text::cat2(theme::spinner_frame(frame), " ");
    let mut r = tool_header_line(timestamp, mark.as_str(), name, theme::WARNING);
    match resource {
        Some(res) => {
            r.push(raw(" "));
            r.push(styled(res.as_str(), Style::fg(theme::TEXT_PRIMARY).dim()));
        },
        None => {},
    }
    r.push(raw(" "));
    r.push(styled("(running…)", theme::ts_style()));
    assert(r@ =~= running_header(timestamp@, name@, call_summary(name@, args@), frame as int));
    r
}

/// A header, and a preview below it where there is one.
pub open spec fn with_preview(
    header: Seq<SpanView>,
    output: Seq<char>,
    width: int,
    color: theme::Color,
) -> Seq<Seq<SpanView>> {
    let shown = width::preview(output, width);
    if shown.len() == 0 {
        seq![header]
    } else {
        seq![header, detail(shown, color)]
    }
}

fn build_with_preview(header: Line, output: &str, area_width: u16, color: theme::Color) -> (r: Vec<
    Line,
>)
    ensures
        span::lines_view(r@) == with_preview(header@, output@, area_width as int, color),
{
    let shown = width::truncate_output(output, area_width);
    let mut r: Vec<Line> = Vec::new();
    push_line(&mut r, header);
    if !shown.as_str().is_empty() {
        push_line(&mut r, detail_line(shown.as_str(), color));
    }
    assert(span::lines_view(r@) =~= with_preview(header@, output@, area_width as int, color));
    r
}

/// The lines of a tool call.
pub open spec fn tool_call_lines(
    name: Seq<char>,
    args: Seq<char>,
    state: ToolCallStateView,
    origin: CallOrigin,
    progress_lines: Seq<Seq<char>>,
    timestamp: Seq<char>,
    width: int,
    frame: int,
) -> Seq<Seq<SpanView>> {
    match state {
        ToolCallStateView::Running => {
            (if origin == CallOrigin::User {
                seq![shell_header(timestamp, args), detail("Running…"@, theme::WARNING)]
            } else {
                seq![running_header(timestamp, name, call_summary(name, args), frame)]
            }) + progress(progress_lines, width)
        },
        ToolCallStateView::Complete(output) => {
            if origin == CallOrigin::User {
                seq![shell_header(timestamp, args)] + output_lines(output)
            } else {
                let header = tool_header(timestamp, theme::ICON_SUCCESS@, name, theme::SUCCESS);
                if output.len() == 0 {
                    seq![header]
                } else {
                    with_preview(header, output, width, theme::TEXT_OUTPUT)
                }
            }
        },
        ToolCallStateView::Rejected(reason) => with_preview(
            tool_header(timestamp, theme::ICON_REJECTED@, name, theme::WARNING),
            reason,
            width,
            theme::WARNING,
        ),
        ToolCallStateView::Error(error) => with_preview(
            tool_header(timestamp, theme::ICON_ERROR@, name, theme::ERROR),
            error,
            width,
            theme::ERROR,
        ),
    }
}

fn build_tool_call(
    name: &str,
    args: &str,
    state: &ToolCallState,
    origin: CallOrigin,
    progress_lines: &Vec<String>,
    timestamp: &str,
    area_width: u16,
    frame: usize,
) -> (r: Vec<Line>)
    ensures
        span::lines_view(r@) == tool_call_lines(
            name@,
            args@,
            state@,
            origin,
            text::texts(progress_lines@),
            timestamp@,
            area_width as int,
            frame as int,
        ),
{
    let mut r: Vec<Line> = Vec::new();
    let ghost want = tool_call_lines(
        name@,
        args@,
        state@,
        origin,
        text::texts(progress_lines@),
        timestamp@,
        area_width as int,
        frame as int,
    );
    match state {
        ToolCallState::Running => {
            if origin == CallOrigin::User {
                push_line(&mut r, shell_header_line(timestamp, args));
                push_line(&mut r, detail_line("Running…", theme::WARNING));
            } else {
                push_line(&mut r, running_header_line(timestamp, name, args, frame));
            }
            push_progress(&mut r, progress_lines, area_width);
            assert(span::lines_view(r@) =~= want);
            r
        },
        ToolCallState::Complete(output) => {
            if origin == CallOrigin::User {
                push_line(&mut r, shell_header_line(timestamp, args));
                push_output(&mut r, output.as_str());
                assert(span::lines_view(r@) =~= want);
                r
            } else {
                let header = tool_header_line(timestamp, theme::ICON_SUCCESS, name, theme::SUCCESS);
                if output.as_str().is_empty() {
                    push_line(&mut r, header);
                    assert(span::lines_view(r@) =~= want);
                    r
                } else {
                    build_with_preview(header, output.as_str(), area_width, theme::TEXT_OUTPUT)
                }
            }
        },
        ToolCallState::Rejected(reason) => {
            let header = tool_header_line(timestamp, theme::ICON_REJECTED, name, theme::WARNING);
            build_with_preview(header, reason.as_str(), area_width, theme::WARNING)
        },
        ToolCallState::Error(error) => {
            let header = tool_header_line(timestamp, theme::ICON_ERROR, name, theme::ERROR);
            build_with_preview(header, error.as_str(), area_width, theme::ERROR)
        },
    }
}

/// The label of the chosen option; a question mark where there is none.
pub open spec fn option_label(options: Seq<Seq<char>>, index: usize) -> Seq<char> {
    if index < options.len() {
        options[index as int]
    } else {
        "?"@
    }
}

/// The label of the chosen option; a question mark where there is none.
pub fn option_label_of(options: &Vec<String>, index: usize) -> (r: String)
    ensures
        r@ == option_label(text::texts(options@), index),
{
    if index < options.len() {
        assert(options@[index as int]@ == text::texts(options@)[index as int]);
        options[index].clone()
    } else {
        "?".to_owned()
    }
}

/// How an answered intervention is summed up.
pub open spec fn answer_summary(
    options: Seq<Seq<char>>,
    chosen: Option<usize>,
    custom_text: Option<Seq<char>>,
) -> Seq<char> {
    match chosen {
        Some(index) => {
            match custom_text {
                Some(t) => option_label(options, index) + ": "@ + t,
                None => option_label(options, index),
            }
        },
        None => "Cancelled"@,
    }
}

/// How an answered intervention is summed up.
pub fn answer_summary_of(
    options: &Vec<String>,
    chosen: Option<usize>,
    custom_text: &Option<String>,
) -> (r: String)
    ensures
        r@ == answer_summary(
            text::texts(options@),
            chosen,
            text::opt_text(*custom_text),
        ),
{
    match chosen {
        Some(index) => {
            let label = option_label_of(options, index);
            match custom_text {
                Some(t) => text::cat3(label.as_str(), ": ", t.as_str()),
                None => label,
            }
        },
        None => "Cancelled".to_owned(),
    }
}

/// The line of one option of a pending intervention.
pub open spec fn option_row(option: Seq<char>, selected: bool) -> Seq<SpanView> {
    seq![
        indent(),
        if selected {
            span::styled_view("  ▶ "@ + option, Style::fg(theme::WARNING).bold())
        } else {
            span::styled_view("    "@ + option, Style::fg(theme::TEXT_SECONDARY).dim())
        },
    ]
}

/// The lines of the options of a pending intervention.
pub open spec fn option_rows(options: Seq<Seq<char>>, selection: Option<usize>) -> Seq<
    Seq<SpanView>,
> {
    Seq::new(options.len(), |i: int| option_row(options[i], selection == Some(i as usize)))
}

fn push_options(r: &mut Vec<Line>, options: &Vec<String>, selection: Option<usize>)
    ensures
        span::lines_view(final(r)@) == span::lines_view(old(r)@) + option_rows(
            text::texts(options@),
            selection,
        ),
{
    let ghost before = span::lines_view(r@);
    let ghost want = option_rows(text::texts(options@), selection);
    let mut i: usize = 0;
    assert(before + want.take(0) =~= before);
    while i < options.len()
        invariant
            i <= options@.len(),
            want == option_rows(text::texts(options@), selection),
            span::lines_view(r@) == before + want.take(i as int),
        decreases options@.len() - i,
    {
        assert(options@[i as int]@ == text::texts(options@)[i as int]);
        let is_selected = match selection {
            Some(s) => s == i,
            None => false,
        };
        let option = if is_selected {
            styled(
                text::cat2("  ▶ ", options[i].as_str()).as_str(),
                Style::fg(theme::WARNING).bold(),
            )
        } else {
            styled(
                text::cat2("    ", options[i].as_str()).as_str(),
                Style::fg(theme::TEXT_SECONDARY).dim(),
            )
        };
        push_line(r, line2(raw(CONTINUATION), option));
        i = i + 1;
        assert(span::lines_view(r@) =~= before + want.take(i as int));
    }
    assert(want.take(i as int) =~= want);
}

/// The line of an answered intervention.
pub open spec fn answered(
    timestamp: Seq<char>,
    title: Seq<char>,
    summary: Seq<char>,
) -> Seq<SpanView> {
    seq![
        stamp(timestamp),
        icon(theme::ICON_SUCCESS@, theme::SUCCESS),
        span::styled_view(title, Style::fg(theme::WARNING)),
        span::styled_view(" "@, Style::plain()),
        span::styled_view(summary, Style::fg(theme::TEXT_PRIMARY)),
    ]
}

/// The lines of a message. `rendered` are the lines that the markdown
/// renderer made of the text that [`markdown_request`] names; they matter
/// for an assistant message and for a pending intervention only.
pub open spec fn message_lines(
    msg: MessageView,
    rendered: Seq<Seq<SpanView>>,
    width: int,
    selection: Option<usize>,
    frame: int,
) -> Seq<Seq<SpanView>> {
    match msg {
        MessageView::User { content, timestamp } => headed_lines(
            text::lines_of(content),
            seq![stamp(timestamp), icon(theme::ICON_USER@, theme::ACCENT)],
            seq![indent()],
            Style::fg(theme::TEXT_PRIMARY),
        ),
        MessageView::Assistant { timestamp, .. } => stamped(rendered, stamp(timestamp)),
        MessageView::Reasoning { content, timestamp } => headed_lines(
            text::lines_of(content),
            seq![stamp(timestamp)],
            Seq::empty(),
            Style::fg(theme::WARNING).dim().italic(),
        ),
        MessageView::ToolCall { name, args, state, origin, progress_lines, timestamp, .. } =>
            tool_call_lines(name, args, state, origin, progress_lines, timestamp, width, frame),
        MessageView::System { content, timestamp } => headed_lines(
            text::lines_of(content),
            seq![stamp(timestamp), icon(theme::ICON_INFO@, theme::INFO)],
            seq![indent()],
            Style::plain(),
        ),
        MessageView::Welcome { model, workspace } => welcome::banner(model, workspace, width),
        MessageView::Intervene {
            title,
            options,
            responded,
            chosen,
            custom_text,
            timestamp,
            ..
        } => {
            if responded {
                seq![answered(timestamp, title, answer_summary(options, chosen, custom_text))]
            } else {
                seq![tool_header(timestamp, theme::ICON_INTERVENTION@, title, theme::WARNING)]
                    + indented(rendered, indent()) + option_rows(options, selection)
            }
        },
        MessageView::Error { content, timestamp } => headed_lines(
            text::lines_of(content),
            seq![stamp(timestamp)],
            Seq::empty(),
            Style::fg(theme::ERROR).bold(),
        ),
    }
}

/// The text that is rendered as markdown, and the width it is rendered to.
pub open spec fn markdown_source(msg: MessageView, width: int) -> Option<(Seq<char>, int)> {
    match msg {
        MessageView::Assistant { content, .. } => Some((content, width)),
        MessageView::Intervene { description, responded, .. } => if responded {
            None
        } else {
            Some(
                (
                    description,
                    if width > 7 {
                        width - 7
                    } else {
                        0
                    },
                ),
            )
        },
        _ => None,
    }
}

/// The text of `msg` that is to be rendered as markdown, and the width to
/// render it to; `None` where the message shows no markdown.
pub fn markdown_request(msg: &ChatMessage, area_width: u16) -> (r: Option<(String, u16)>)
    ensures
        match r {
            Some((s, w)) => markdown_source(msg@, area_width as int) == Some((s@, w as int)),
            None => markdown_source(msg@, area_width as int) is None,
        },
{
    match msg {
        ChatMessage::Assistant { content, .. } => Some((content.clone(), area_width)),
        ChatMessage::Intervene { description, responded, .. } => {
            if *responded {
                None
            } else {
                let w: u16 = if area_width > 7 {
                    area_width - 7
                } else {
                    0
                };
                Some((description.clone(), w))
            }
        },
        _ => None,
    }
}

/// Converts one message into styled lines. `rendered` is what the markdown
/// renderer made of the request of [`markdown_request`].
pub fn message_to_lines(
    msg: &ChatMessage,
    rendered: Vec<Line>,
    area_width: u16,
    intervene_selection: Option<usize>,
    spinner_frame: usize,
) -> (r: Vec<Line>)
    ensures
        span::lines_view(r@) == message_lines(
            msg@,
            span::lines_view(rendered@),
            area_width as int,
            intervene_selection,
            spinner_frame as int,
        ),
{
    match msg {
        ChatMessage::User { content, timestamp } => {
            let head = line2(
                stamp_span(timestamp.as_str()),
                styled(theme::ICON_USER, Style::fg(theme::ACCENT).bold()),
            );
            let rest = line1(raw(CONTINUATION));
            build_headed(content.as_str(), head, rest, Style::fg(theme::TEXT_PRIMARY))
        },
        ChatMessage::Assistant { timestamp, .. } => build_stamped(rendered, timestamp.as_str()),
        ChatMessage::Reasoning { content, timestamp } => {
            let head = line1(stamp_span(timestamp.as_str()));
            build_headed(
                content.as_str(),
                head,
                Line::new(),
                Style::fg(theme::WARNING).dim().italic(),
            )
        },
        ChatMessage::ToolCall { name, args, state, origin, progress_lines, timestamp, .. } => {
            build_tool_call(
                name.as_str(),
                args.as_str(),
                state,
                *origin,
                progress_lines,
                timestamp.as_str(),
                area_width,
                spinner_frame,
            )
        },
        ChatMessage::System { content, timestamp } => {
            let head = line2(
                stamp_span(timestamp.as_str()),
                styled(theme::ICON_INFO, Style::fg(theme::INFO).bold()),
            );
            let rest = line1(raw(CONTINUATION));
            build_headed(content.as_str(), head, rest, Style::plain())
        },
        ChatMessage::Welcome { model, workspace } => {
            welcome::render(model.as_str(), workspace.as_str(), area_width)
        },
        ChatMessage::Intervene {
            title,
            options,
            responded,
            chosen,
            custom_text,
            timestamp,
            ..
        } => {
            let mut r: Vec<Line> = Vec::new();
            if *responded {
                let summary = answer_summary_of(options, *chosen, custom_text);
                let mut line = line3(
                    stamp_span(timestamp.as_str()),
                    styled(theme::ICON_SUCCESS, Style::fg(theme::SUCCESS).bold()),
                    styled(title.as_str(), Style::fg(theme::WARNING)),
                );
                line.push(raw(" "));
                line.push(styled(summary.as_str(), Style::fg(theme::TEXT_PRIMARY)));
                assert(line@ =~= answered(timestamp@, title@, summary@));
                push_line(&mut r, line);
                assert(span::lines_view(r@) =~= seq![answered(timestamp@, title@, summary@)]);
                r
            } else {
                push_line(
                    &mut r,
                    tool_header_line(
                        timestamp.as_str(),
                        theme::ICON_INTERVENTION,
                        title.as_str(),
                        theme::WARNING,
                    ),
                );
                let ghost head = span::lines_view(r@);
                let ghost want = indented(span::lines_view(rendered@), indent());
                let mut i: usize = 0;
                assert(head + want.take(0) =~= head);
                while i < rendered.len()
                    invariant
                        i <= rendered@.len(),
                        want == indented(span::lines_view(rendered@), indent()),
                        span::lines_view(r@) == head + want.take(i as int),
                    decreases rendered@.len() - i,
                {
                    assert(rendered@[i as int]@ == span::lines_view(rendered@)[i as int]);
                    push_line(&mut r, prefixed(raw(CONTINUATION), &rendered[i]));
                    i = i + 1;
                    assert(span::lines_view(r@) =~= head + want.take(i as int));
                }
                assert(want.take(i as int) =~= want);
                push_options(&mut r, options, intervene_selection);
                assert(head =~= seq![
                    tool_header(timestamp@, theme::ICON_INTERVENTION@, title@, theme::WARNING),
                ]);
                r
            }
        },
        ChatMessage::Error { content, timestamp } => {
            let head = line1(stamp_span(timestamp.as_str()));
            build_headed(content.as_str(), head, Line::new(), Style::fg(theme::ERROR).bold())
        },
    }
}

} // verus!
