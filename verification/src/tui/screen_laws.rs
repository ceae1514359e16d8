//! What the screen shows, stated on the state that it shows.

use vstd::prelude::*;
use crate::json::FieldView;
use crate::hooks::prompt_laws;
use crate::text;
use crate::text_laws;
use crate::tui::app::{AppView, Rect};
use crate::tui::frame::{self, InputMode};
use crate::tui::input_view;
use crate::tui::intervene;
use crate::tui::messages::{
    CallOrigin, CompletionView, MessageView, PickerView, SelectionState, ThreadView,
    ToolCallStateView,
};
use crate::tui::overlay;
use crate::tui::paste;
use crate::tui::span::SpanView;
use crate::tui::theme::Style;
use crate::tui::typing_laws::is_open_question;
use crate::tui::ui;
use crate::tui::welcome;
use crate::tui::width::{self, display_width};

verus! {

// ── Messages ────────────────────────────────────────────────────────────

/// The name of the argument that says what a tool works on.
pub open spec fn works_on(name: Seq<char>, key: Seq<char>) -> bool {
    ||| (name == "read"@ || name == "write"@ || name == "edit"@) && key == "file_path"@
    ||| (name == "glob"@ || name == "grep"@) && key == "pattern"@
    ||| name == "shell"@ && key == "command"@
    ||| name == "ask_user_question"@ && key == "question"@
    ||| name == "calculator"@ && key == "expression"@
    ||| name == "task"@ && key == "description"@
    ||| name == "ls"@ && key == "path"@
}

/// A call shows what it works on: the file, the pattern, the command and so
/// on, whole where it is not too wide.
pub proof fn law_calls_show_what_they_work_on(
    name: Seq<char>,
    a: Seq<(Seq<char>, FieldView)>,
    key: Seq<char>,
    s: Seq<char>,
    b: Seq<(Seq<char>, FieldView)>,
)
    requires
        works_on(name, key),
        forall|i: int| 0 <= i < a.len() ==> (#[trigger] a[i]).0 != key,
        display_width(s) <= 40,
    ensures
        ui::resource_summary(name, a + seq![(key, FieldView::Text(s))] + b) == Some(s),
{
    prompt_laws::law_fields_are_found(a, key, FieldView::Text(s), b);
    lemma_names();
    if name != "ls"@ {
        assert(ui::resource_key(name) == Some(key));
    }
}

proof fn lemma_names()
    ensures
        "read"@ != "todo"@,
        "write"@ != "todo"@,
        "edit"@ != "todo"@,
        "glob"@ != "todo"@,
        "grep"@ != "todo"@,
        "shell"@ != "todo"@,
        "ask_user_question"@ != "todo"@,
        "calculator"@ != "todo"@,
        "task"@ != "todo"@,
        "ls"@ != "todo"@,
        "read"@ != "ls"@,
        "write"@ != "ls"@,
        "edit"@ != "ls"@,
        "glob"@ != "ls"@,
        "grep"@ != "ls"@,
        "shell"@ != "ls"@,
        "ask_user_question"@ != "ls"@,
        "calculator"@ != "ls"@,
        "task"@ != "ls"@,
        forall|n: Seq<char>|
            #![trigger ui::resource_key(n)]
            (n == "glob"@ || n == "grep"@ || n == "shell"@ || n == "ask_user_question"@ || n
                == "calculator"@ || n == "task"@) ==> n != "read"@ && n != "write"@ && n
                != "edit"@,
        forall|n: Seq<char>|
            #![trigger ui::resource_key(n)]
            (n == "shell"@ || n == "ask_user_question"@ || n == "calculator"@ || n == "task"@) ==> n
                != "glob"@ && n != "grep"@,
        "ask_user_question"@ != "shell"@,
        "calculator"@ != "shell"@,
        "task"@ != "shell"@,
        "calculator"@ != "ask_user_question"@,
        "calculator"@ != "ask_user"@,
        "task"@ != "ask_user_question"@,
        "task"@ != "ask_user"@,
        "task"@ != "calculator"@,
        "task"@ != "echo"@,
{
    reveal_strlit("read");
    reveal_strlit("write");
    reveal_strlit("edit");
    reveal_strlit("glob");
    reveal_strlit("grep");
    reveal_strlit("shell");
    reveal_strlit("ask_user_question");
    reveal_strlit("ask_user");
    reveal_strlit("calculator");
    reveal_strlit("task");
    reveal_strlit("ls");
    reveal_strlit("todo");
    reveal_strlit("echo");
    assert("read"@.len() == 4 && "read"@[0] == 'r');
    assert("write"@.len() == 5 && "write"@[0] == 'w');
    assert("edit"@.len() == 4 && "edit"@[0] == 'e' && "edit"@[1] == 'd');
    assert("glob"@.len() == 4 && "glob"@[0] == 'g');
    assert("grep"@.len() == 4 && "grep"@[0] == 'g');
    assert("shell"@.len() == 5 && "shell"@[0] == 's');
    assert("ask_user_question"@.len() == 17);
    assert("ask_user"@.len() == 8);
    assert("calculator"@.len() == 10);
    assert("task"@.len() == 4 && "task"@[0] == 't' && "task"@[1] == 'a');
    assert("ls"@.len() == 2);
    assert("todo"@.len() == 4 && "todo"@[0] == 't' && "todo"@[1] == 'o');
    assert("echo"@.len() == 4 && "echo"@[0] == 'e' && "echo"@[1] == 'c');
}

/// Whether the lines on the screen show the lines of a text, one on one, with
/// the time before the first.
pub open spec fn show_text(
    shown: Seq<Seq<SpanView>>,
    s: Seq<char>,
    timestamp: Seq<char>,
) -> bool {
    let lines = text::lines_of(s);
    &&& shown.len() == lines.len()
    &&& forall|i: int|
        0 <= i < lines.len() ==> (#[trigger] shown[i]).len() > 0 && shown[i].last().content
            == lines[i]
    &&& lines.len() > 0 ==> text::begins_with(shown[0][0].content, timestamp)
}

/// A message of the user, of the system, a thought and an error are shown with
/// all their lines.
pub proof fn law_messages_show_their_lines(
    content: Seq<char>,
    timestamp: Seq<char>,
    rendered: Seq<Seq<SpanView>>,
    width: int,
    selection: Option<usize>,
    frame: int,
)
    ensures
        show_text(
            ui::message_lines(
                MessageView::User { content, timestamp },
                rendered,
                width,
                selection,
                frame,
            ),
            content,
            timestamp,
        ),
        show_text(
            ui::message_lines(
                MessageView::System { content, timestamp },
                rendered,
                width,
                selection,
                frame,
            ),
            content,
            timestamp,
        ),
        show_text(
            ui::message_lines(
                MessageView::Reasoning { content, timestamp },
                rendered,
                width,
                selection,
                frame,
            ),
            content,
            timestamp,
        ),
        show_text(
            ui::message_lines(
                MessageView::Error { content, timestamp },
                rendered,
                width,
                selection,
                frame,
            ),
            content,
            timestamp,
        ),
{
    let s = timestamp + " "@;
    assert(s.subrange(0, timestamp.len() as int) =~= timestamp);
}

/// An answer of the model is shown as it was laid out, with the time before
/// its first line.
pub proof fn law_answers_are_shown(
    content: Seq<char>,
    timestamp: Seq<char>,
    rendered: Seq<Seq<SpanView>>,
    width: int,
    selection: Option<usize>,
    frame: int,
)
    ensures
        ({
            let shown = ui::message_lines(
                MessageView::Assistant { content, timestamp },
                rendered,
                width,
                selection,
                frame,
            );
            &&& shown.len() == rendered.len()
            &&& forall|i: int| 1 <= i < rendered.len() ==> #[trigger] shown[i] == rendered[i]
            &&& rendered.len() > 0 ==> shown[0].skip(1) == rendered[0] && text::begins_with(
                shown[0][0].content,
                timestamp,
            )
            &&& ui::markdown_source(MessageView::Assistant { content, timestamp }, width) == Some(
                (content, width),
            )
        }),
{
    let s = timestamp + " "@;
    assert(s.subrange(0, timestamp.len() as int) =~= timestamp);
    let shown = ui::message_lines(
        MessageView::Assistant { content, timestamp },
        rendered,
        width,
        selection,
        frame,
    );
    if rendered.len() > 0 {
        assert(shown[0].skip(1) =~= rendered[0]);
    }
}

/// A call of the model shows its name, and how it went by its mark; a command
/// of the user is shown with all its output.
pub proof fn law_calls_show_how_they_went(
    name: Seq<char>,
    args: Seq<char>,
    output: Seq<char>,
    progress: Seq<Seq<char>>,
    timestamp: Seq<char>,
    width: int,
    frame: int,
)
    ensures
        ({
            let of = |state: ToolCallStateView, origin: CallOrigin|
                ui::tool_call_lines(
                    name,
                    args,
                    state,
                    origin,
                    progress,
                    timestamp,
                    width,
                    frame,
                );
            let done = of(ToolCallStateView::Complete(output), CallOrigin::Llm);
            let refused = of(ToolCallStateView::Rejected(output), CallOrigin::Llm);
            let failed = of(ToolCallStateView::Error(output), CallOrigin::Llm);
            let running = of(ToolCallStateView::Running, CallOrigin::Llm);
            let command = of(ToolCallStateView::Complete(output), CallOrigin::User);
            &&& done.len() > 0 && done[0].len() == 3 && done[0][1].content == "✓ "@
                && done[0][2].content == name
            &&& refused.len() > 0 && refused[0].len() == 3 && refused[0][1].content
                == "⊘ "@ && refused[0][2].content == name
            &&& failed.len() > 0 && failed[0].len() == 3 && failed[0][1].content
                == "✗ "@ && failed[0][2].content == name
            &&& running.len() == progress.len() + 1 && running[0][2].content == name
                && running[0].last().content == "(running…)"@
            &&& command.len() == text::lines_of(output).len() + 1
            &&& command[0].last().content == args
            &&& forall|i: int|
                0 <= i < text::lines_of(output).len() ==> (#[trigger] command[i
                    + 1]).last().content == text::lines_of(output)[i]
        }),
{
}

/// An answered question shows the choice, with what was written to it; one
/// that was left shows that.
pub proof fn law_answers_are_summed_up(options: Seq<Seq<char>>, i: usize, t: Seq<char>)
    ensures
        i < options.len() ==> ui::answer_summary(options, Some(i), None) == options[i as int],
        i < options.len() ==> ui::answer_summary(options, Some(i), Some(t)) == options[i as int]
            + seq![':', ' '] + t,
        ui::answer_summary(options, None, None) == "Cancelled"@,
{
    reveal_strlit(": ");
    assert(": "@ =~= seq![':', ' ']);
}

/// Each option of a question has a row, in their order, and the highlighted
/// one alone is marked.
pub proof fn law_options_are_shown(options: Seq<Seq<char>>, selection: Option<usize>, i: int)
    requires
        0 <= i < options.len() <= usize::MAX,
    ensures
        ({
            let row = ui::option_rows(options, selection)[i];
            &&& ui::option_rows(options, selection).len() == options.len()
            &&& text::finishes_with(row.last().content, options[i])
            &&& selection == Some(i as usize) <==> row.last().content == "  ▶ "@ + options[i]
        }),
{
    reveal_strlit("  ▶ ");
    reveal_strlit("    ");
    let o = options[i];
    let a = "  ▶ "@ + o;
    let b = "    "@ + o;
    assert(a.len() == b.len());
    assert(a.subrange(a.len() - o.len(), a.len() as int) =~= o);
    assert(b.subrange(b.len() - o.len(), b.len() as int) =~= o);
    assert(a[2] == '▶');
    assert(b[2] == ' ');
}

// ── Lists and popups ────────────────────────────────────────────────────

/// A box in the middle has as much room on one side as on the other, but for
/// one column or row.
pub proof fn law_boxes_are_centred(area: Rect, width: u16, height: u16)
    requires
        area.x + area.width <= 65535,
        area.y + area.height <= 65535,
        width <= area.width,
        height <= area.height,
    ensures
        ({
            let r = overlay::in_the_middle(area, width, height);
            let left = r.x - area.x;
            let right = (area.x + area.width) - (r.x + r.width);
            let above = r.y - area.y;
            let below = (area.y + area.height) - (r.y + r.height);
            &&& r.width == width && r.height == height
            &&& 0 <= left <= right <= left + 1
            &&& 0 <= above <= below <= above + 1
        }),
{
}

/// The popup stands on the input, where there is room above it.
pub proof fn law_popup_is_above_the_input(input: Rect, matches: nat)
    requires
        input.y >= overlay::shown_count(matches) + 2,
    ensures
        ({
            let r = overlay::popup_above(input, matches);
            &&& r.y + r.height == input.y && r.x == input.x && r.width <= input.width
            &&& r.height == (if matches < 8 {
                matches
            } else {
                8
            }) + 2
        }),
{
}

/// Each conversation has a line with its name, and the highlighted one alone
/// is marked.
pub proof fn law_conversations_are_shown(p: PickerView, scaled: Seq<Seq<char>>, rows: nat, i: int)
    requires
        0 <= i < p.threads.len(),
    ensures
        ({
            let line = overlay::picker_lines(p, scaled, rows)[i];
            &&& line.len() == 2
            &&& text::begins_with(line[1].content, p.threads[i].name)
            &&& text::finishes_with(line[1].content, p.threads[i].saved_at)
            &&& i == p.selected <==> line[0].content == " ▶ "@
        }),
{
    reveal_strlit(" ▶ ");
    reveal_strlit("   ");
    assert(" ▶ "@[1] == '▶');
    assert("   "@[1] == ' ');
    let t = p.threads[i];
    let s = overlay::thread_text(t, scaled[i]);
    assert(s.subrange(0, t.name.len() as int) =~= t.name);
    assert(s.subrange(s.len() - t.saved_at.len(), s.len() as int) =~= t.saved_at);
}

/// The list is as high as its lines and its frame, and holds ten lines at most.
pub proof fn law_list_height(threads: nat)
    ensures
        threads <= 10 ==> overlay::picker_rows(threads) == threads + 4,
        threads > 10 ==> overlay::picker_rows(threads) == 10 + 4,
{
}

/// The line of a conversation says how many messages it has, and how many
/// characters.
pub proof fn law_conversations_are_measured(t: ThreadView, scaled: Seq<char>)
    ensures
        ({
            let s = overlay::thread_text(t, scaled);
            &&& text::contains_text(s, text::decimal(t.message_count as nat) + " msgs  "@)
            &&& t.total_chars < 1000 ==> text::contains_text(
                s,
                " msgs  "@ + text::decimal(t.total_chars as nat),
            )
        }),
{
    let s = overlay::thread_text(t, scaled);
    let name = text::padded_right(t.name, 20, ' ');
    let n = text::decimal(t.message_count as nat);
    let count = text::padded_left(n, 4, ' ');
    text_laws::law_padding(n, 4, ' ');
    assert(count =~= count.take(count.len() - n.len()) + n);
    let a = (name + "  "@).len() as int + (count.len() - n.len());
    let x = n + " msgs  "@;
    assert(s.subrange(a, a + x.len()) =~= x);
    assert(text::occurs_at(s, x, a));
    if t.total_chars < 1000 {
        let y = " msgs  "@ + text::decimal(t.total_chars as nat);
        let b = a + n.len();
        assert(s.subrange(b, b + y.len()) =~= y);
        assert(text::occurs_at(s, y, b));
    }
}

/// The popup shows commands from the window on, each with how it is used and
/// what it does, and the highlighted one among them.
pub proof fn law_completions_are_shown(c: CompletionView)
    requires
        c.selected < c.matches.len(),
    ensures
        ({
            let lines = overlay::completion_lines(c);
            let start = overlay::window_start(c.matches.len(), c.selected as nat);
            &&& lines.len() == overlay::shown_count(c.matches.len())
            &&& start <= c.selected < start + lines.len()
            &&& forall|i: int|
                0 <= i < lines.len() ==> (#[trigger] lines[i]).len() == 3 && text::begins_with(
                    lines[i][1].content,
                    c.matches[start + i].usage,
                ) && lines[i][2].content == c.matches[start + i].desc
        }),
{
    overlay::law_selected_completion_is_visible(c.matches.len(), c.selected as nat);
    let lines = overlay::completion_lines(c);
    let start = overlay::window_start(c.matches.len(), c.selected as nat);
    assert forall|i: int| 0 <= i < lines.len() implies (#[trigger] lines[i]).len() == 3
        && text::begins_with(lines[i][1].content, c.matches[start + i].usage)
        && lines[i][2].content == c.matches[start + i].desc by {
        let u = c.matches[start + i].usage;
        assert(lines[i][1].content.subrange(0, u.len() as int) =~= u);
    }
}

// ── The frame ───────────────────────────────────────────────────────────

/// The chat begins so far above its end that the window is full, and further
/// up by as much as it is scrolled.
pub proof fn law_chat_window(total: nat, visible: nat, scrolled: nat)
    ensures
        visible + scrolled <= total ==> frame::first_row(total, visible, scrolled) + visible
            + scrolled == total,
        visible + scrolled > total ==> frame::first_row(total, visible, scrolled) == 0,
{
}

/// The input is as high as its text, but between three and fifteen rows, and
/// no higher than the screen lets it.
pub proof fn law_input_height(rows: nat, height: u16)
    ensures
        ({
            let n = frame::shown_rows(rows, height);
            &&& 3 <= n <= 15
            &&& 3 <= rows <= 15 && rows + 4 <= height ==> n == rows
            &&& rows < 3 ==> n == 3
            &&& rows > 15 && height >= 19 ==> n == 15
            &&& 7 <= height < 19 ==> n <= height - 4
        }),
{
}

/// Of a selection a row between its ends is marked whole, its first row from
/// where it starts and its last up to where it ends; other rows are not.
pub proof fn law_selection_is_marked(s: SelectionState, row: nat, full: nat)
    requires
        s.start_line < s.end_line,
        s.start_col < full,
        0 < s.end_col <= full,
    ensures
        s.start_line < row < s.end_line ==> frame::selected_columns(s, row, full) == Some(
            (0nat, full),
        ),
        row == s.start_line ==> frame::selected_columns(s, row, full) == Some(
            (s.start_col as nat, full),
        ),
        row == s.end_line ==> frame::selected_columns(s, row, full) == Some(
            (0nat, s.end_col as nat),
        ),
        row < s.start_line || row > s.end_line ==> frame::selected_columns(s, row, full) is None,
{
}

/// A selection is marked alike in whichever direction it was made.
pub proof fn law_selection_has_no_direction(s: SelectionState, row: nat, full: nat)
    ensures
        frame::selected_columns(s, row, full) == frame::selected_columns(
            SelectionState {
                start_line: s.end_line,
                start_col: s.end_col,
                end_line: s.start_line,
                end_col: s.start_col,
                dragging: s.dragging,
            },
            row,
            full,
        ),
{
}

/// The input says what it is for: an open question comes first, then a command
/// that waits, then plan mode and a run.
pub proof fn law_input_modes(a: AppView)
    ensures
        ({
            let asked = exists|i: int|
                0 <= i < a.messages.len() && is_open_question(#[trigger] a.messages[i]);
            let waits = a.pending_shell_confirm is Some;
            let m = frame::input_mode(a);
            &&& m is Answer <==> asked && a.intervene_text_mode
            &&& m is Choose <==> asked && !a.intervene_text_mode
            &&& m is Confirm <==> !asked && waits
            &&& m is PlanInject <==> !asked && !waits && a.plan_active && a.streaming
            &&& m is Plan <==> !asked && !waits && a.plan_active && !a.streaming
            &&& m is Inject <==> !asked && !waits && !a.plan_active && a.streaming
            &&& m is Idle <==> !asked && !waits && !a.plan_active && !a.streaming
        }),
{
    intervene::lemma_last_pending(a.messages);
    let k = intervene::last_pending(a.messages);
    if k >= 0 {
        assert(is_open_question(a.messages[k]));
    } else {
        assert forall|i: int| 0 <= i < a.messages.len() implies !is_open_question(
            #[trigger] a.messages[i],
        ) by {
            assert(!intervene::is_pending(a.messages[i]));
        }
    }
}

/// The title of the input names its mode; a run shows the spinner in it.
pub proof fn law_input_titles(frame: int)
    ensures
        frame::input_title(InputMode::Answer, frame) == " Answer "@,
        frame::input_title(InputMode::Choose, frame) == " Choose "@,
        frame::input_title(InputMode::Confirm, frame) == " Confirm Shell "@,
        frame::input_title(InputMode::Plan, frame) == " [PLAN] Input "@,
        frame::input_title(InputMode::Idle, frame) == " Input "@,
        text::begins_with(frame::input_title(InputMode::PlanInject, frame), " [PLAN] "@),
        text::finishes_with(frame::input_title(InputMode::PlanInject, frame), " Inject "@),
        text::finishes_with(frame::input_title(InputMode::Inject, frame), " Inject "@),
        text::contains_text(
            frame::input_title(InputMode::Inject, frame),
            crate::tui::theme::spinner(frame),
        ),
{
    let a = frame::input_title(InputMode::PlanInject, frame);
    let b = frame::input_title(InputMode::Inject, frame);
    let end = " Inject "@;
    let spin = crate::tui::theme::spinner(frame);
    assert(a.subrange(0, " [PLAN] "@.len() as int) =~= " [PLAN] "@);
    assert(a.subrange(a.len() - end.len(), a.len() as int) =~= end);
    assert(b.subrange(b.len() - end.len(), b.len() as int) =~= end);
    let n = " "@.len() as int;
    assert(b.subrange(n, n + spin.len()) =~= spin);
    assert(text::occurs_at(b, spin, n));
}

/// What the user typed is shown; a hint stands there only while the input is
/// empty, or while a command waits.
pub proof fn law_typed_text_is_shown(a: AppView)
    ensures
        frame::input_hint(a) is None <==> a.input.len() > 0 && a.pending_shell_confirm is None,
{
}

/// The chat is titled with the name of the conversation.
pub proof fn law_chat_has_a_title(t: Seq<char>)
    requires
        display_width(t) <= 40,
    ensures
        text::contains_text(frame::chat_title(Some(t)), t),
        text::contains_text(frame::chat_title(None), "new"@),
{
    let n = " Chat — "@.len() as int;
    let s = frame::chat_title(Some(t));
    assert(s.subrange(n, n + t.len()) =~= t);
    assert(text::occurs_at(s, t, n));
    let u = frame::chat_title(None);
    assert(u.subrange(n, n + "new"@.len()) =~= "new"@);
    assert(text::occurs_at(u, "new"@, n));
}

// ── The cursor ──────────────────────────────────────────────────────────

/// The cursor stands behind as many characters as its bytes make up.
pub proof fn law_cursor_counts_characters(a: Seq<char>, b: Seq<char>)
    ensures
        input_view::cursor_pos(a + b, vstd::utf8::encode_utf8(a).len() as int) == a.len(),
{
    text::lemma_byte_len_is_utf8(a);
    let s = a + b;
    let k = a.len() as int;
    assert(s.take(k) =~= a);
    text::lemma_char_index(s, k);
    text::lemma_byte_len_add(a, b);
}

/// In its row the cursor stands on the character at its place, with the text
/// before and behind it as it is; behind the text it stands on a blank.
pub proof fn law_cursor_is_shown(
    x: Seq<char>,
    c: char,
    y: Seq<char>,
    style: Style,
)
    ensures
        ({
            let line = x + seq![c] + y;
            let spans = input_view::cursor_spans(line, (0, line.len() as int), x.len() as int, style);
            &&& spans[0].content == x
            &&& spans[1].content == seq![c] && spans[1].style == style
            &&& y.len() > 0 ==> spans.len() == 3 && spans[2].content == y
            &&& y.len() == 0 ==> spans.len() == 2
        }),
        ({
            let spans = input_view::cursor_spans(x, (0, x.len() as int), x.len() as int, style);
            spans[0].content == x && spans[1].content == seq![' '] && spans[1].style == style
        }),
{
    reveal_strlit(" ");
    assert(" "@ =~= seq![' ']);
    let line = x + seq![c] + y;
    let k = x.len() as int;
    assert(line.subrange(0, k) =~= x);
    assert(line[k] == c);
    if y.len() > 0 {
        assert(line.subrange(k + 1, line.len() as int) =~= y);
    }
    assert(x.subrange(0, k) =~= x);
}

/// A line of the input is measured and drawn by itself, and a line feed begins
/// another one.
pub proof fn law_lines_are_drawn_apart(l: Seq<char>, rest: Seq<char>, p: int, style: Style, w: nat)
    requires
        !l.contains('\n'),
    ensures
        input_view::input_rows(l + seq!['\n'] + rest, p, style, w) == input_view::line_rows(
            l,
            if 0 <= p <= l.len() {
                Some(p)
            } else {
                None
            },
            style,
            w,
        ) + input_view::input_rows(rest, p - l.len() - 1, style, w),
{
    let s = l + seq!['\n'] + rest;
    text::lemma_first_char(s, '\n');
    let n = text::first_char(s, '\n');
    assert(s[l.len() as int] == '\n');
    if n < l.len() {
        assert(s[n] == l[n]);
        assert(l.contains(l[n]));
    }
    assert(s.take(n) =~= l);
    assert(s.skip(n + 1) =~= rest);
}

/// The chat shows its messages one after the other.
pub proof fn law_chat_is_in_order(
    ms: Seq<MessageView>,
    m: MessageView,
    rendered: Seq<Seq<Seq<SpanView>>>,
    width: int,
    selection: Option<usize>,
    frame: int,
)
    ensures
        frame::raw_lines(Seq::empty(), rendered, width, selection, frame).len() == 0,
        frame::raw_lines(ms.push(m), rendered, width, selection, frame) == frame::raw_lines(
            ms,
            rendered,
            width,
            selection,
            frame,
        ) + ui::message_lines(m, rendered[ms.len() as int], width, selection, frame),
{
    assert(ms.push(m).drop_last() =~= ms);
}

/// The banner names the model, and the workspace as far as there is room.
pub proof fn law_banner_names_the_model(model: Seq<char>, workspace: Seq<char>, width: int)
    ensures
        ({
            let b = welcome::banner(model, workspace, width);
            let n = b.len();
            &&& b[n - 4].last().content == model
            &&& display_width(workspace) <= 16 ==> b[n - 3].last().content == workspace
        }),
{
}

/// A placeholder names the number of its paste, and its lines where there are
/// several.
pub proof fn law_placeholders(b: paste::BlockView)
    ensures
        text::begins_with(
            paste::placeholder_of(b),
            "[Pasted text #"@ + text::decimal(b.id),
        ),
        b.line_count > 1 ==> text::finishes_with(
            paste::placeholder_of(b),
            text::decimal(b.line_count) + " lines]"@,
        ),
{
    let s = paste::placeholder_of(b);
    let head = "[Pasted text #"@ + text::decimal(b.id);
    assert(s.subrange(0, head.len() as int) =~= head);
    if b.line_count > 1 {
        let end = text::decimal(b.line_count) + " lines]"@;
        assert(s.subrange(s.len() - end.len(), s.len() as int) =~= end);
    }
}

/// A row of the input is filled: all but the last of a line would not hold one
/// character more. The first has less room, for the prompt.
pub proof fn law_input_rows_are_filled(line: Seq<char>, w: nat, i: int)
    requires
        line.len() > 0,
        0 <= i < input_view::row_ranges(line, w).len() - 1,
    ensures
        ({
            let row = input_view::row_ranges(line, w)[i];
            let room = if i > 0 {
                w
            } else if w > 3 {
                (w - 2) as nat
            } else {
                1
            };
            let more = line.subrange(row.0, row.1 + 1);
            row.1 - row.0 > 1 ==> display_width(more) > room || width::cols(more) > room
        }),
{
    lemma_chunk_is_filled(line, 0, input_view::first_cap(w), w, i);
}

proof fn lemma_chunk_is_filled(line: Seq<char>, from: int, cap: nat, w: nat, i: int)
    requires
        0 <= from < line.len(),
        0 <= i < input_view::chunks(line, from, cap, w).len() - 1,
    ensures
        ({
            let row = input_view::chunks(line, from, cap, w)[i];
            let room = if i > 0 {
                w
            } else {
                cap
            };
            let more = line.subrange(row.0, row.1 + 1);
            row.1 - row.0 > 1 ==> display_width(more) > room || width::cols(more) > room
        }),
    decreases line.len() - from,
{
    let rest = line.skip(from);
    width::lemma_fit_count(rest, cap);
    let k = width::split_count(rest, cap);
    let to = from + k;
    let below = input_view::chunks(line, to, w, w);
    let rows = input_view::chunks(line, from, cap, w);
    assert(rows =~= seq![(from, to)] + below);
    assert(below.len() > 0);
    if i == 0 {
        assert(rows[0] == (from, to));
        assert(line.subrange(from, to + 1) =~= rest.take(k + 1));
    } else {
        assert(rows[i] == below[i - 1]);
        lemma_chunk_is_filled(line, to, w, w, i - 1);
    }
}

} // verus!
