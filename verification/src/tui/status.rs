//! The status bar: what is going on, and the keys that matter.

use vstd::prelude::*;
use crate::hooks::observability_hook::Metrics;
use crate::text;
use crate::tools::todo::{self, count_status, ItemView, TodoItem};
use crate::tui::app::{self, App, AppView};
use crate::tui::intervene;
use crate::tui::span::{self, styled, Line, SpanView};
use crate::tui::theme::{self, Color, Style};
use crate::tui::width::{self, str_width, truncate_to_width};

verus! {

/// A number in short: in millions from a million on, in thousands from a
/// thousand on. `scaled` is the number so divided, with one decimal.
pub open spec fn human(n: nat, scaled: Seq<char>, lower: Seq<char>, upper: Seq<char>) -> Seq<char> {
    if n >= 1_000_000 {
        scaled + upper
    } else if n >= 1_000 {
        scaled + lower
    } else {
        text::decimal(n)
    }
}

/// A number in short, such as `2.5k` or `3.0M`. `scaled` is the number in
/// millions or thousands, with one decimal; it is not read below a thousand.
pub fn format_human(n: usize, scaled: &str, lower: &str, upper: &str) -> (r: String)
    ensures
        r@ == human(n as nat, scaled@, lower@, upper@),
{
    if n >= 1_000_000 {
        text::cat2(scaled, upper)
    } else if n >= 1_000 {
        text::cat2(scaled, lower)
    } else {
        text::decimal_of(n as u64)
    }
}

/// The first task in progress, as it is called while it is.
pub open spec fn active_task(items: Seq<ItemView>) -> Option<Seq<char>>
    decreases items.len(),
{
    if items.len() == 0 {
        None
    } else {
        match active_task(items.drop_last()) {
            Some(a) => Some(a),
            None => if items.last().status == "in_progress"@ {
                Some(items.last().active_form)
            } else {
                None
            },
        }
    }
}

fn find_active(items: &Vec<TodoItem>) -> (r: Option<usize>)
    ensures
        match r {
            Some(i) => i < items@.len() && active_task(todo::items_view(items@)) == Some(
                items@[i as int]@.active_form,
            ),
            None => active_task(todo::items_view(items@)) is None,
        },
{
    let ghost all = todo::items_view(items@);
    let mut found: Option<usize> = None;
    let mut i: usize = 0;
    while i < items.len()
        invariant
            i <= items@.len(),
            all == todo::items_view(items@),
            match found {
                Some(k) => k < items@.len() && active_task(all.take(i as int)) == Some(
                    items@[k as int]@.active_form,
                ),
                None => active_task(all.take(i as int)) is None,
            },
        decreases items@.len() - i,
    {
        assert(all.take(i + 1).drop_last() =~= all.take(i as int));
        assert(all.take(i + 1).last() == items@[i as int]@);
        if found.is_none() && text::same_text(items[i].status.as_str(), "in_progress") {
            found = Some(i);
        }
        i = i + 1;
    }
    assert(all.take(i as int) =~= all);
    found
}

/// The progress of the task list; nothing without tasks.
pub open spec fn todo_part(items: Seq<ItemView>) -> Seq<char> {
    let count = "☐ "@ + text::decimal(todo::count_of(items, "completed"@)) + "/"@ + text::decimal(
        items.len(),
    );
    if items.len() == 0 {
        Seq::empty()
    } else {
        match active_task(items) {
            Some(active) => count + " · ✍ "@ + active + " | "@,
            None => count + " | "@,
        }
    }
}

fn todo_text(items: &Vec<TodoItem>) -> (r: String)
    ensures
        r@ == todo_part(todo::items_view(items@)),
{
    let total: usize = items.len();
    if total == 0 {
        return String::new();
    }
    let done: usize = count_status(items, "completed");
    let count = text::cat4(
        "☐ ",
        text::decimal_of(done as u64).as_str(),
        "/",
        text::decimal_of(total as u64).as_str(),
    );
    match find_active(items) {
        Some(i) => text::cat4(count.as_str(), " · ✍ ", items[i].active_form.as_str(), " | "),
        None => text::cat2(count.as_str(), " | "),
    }
}

/// The numbers of the run; nothing before the first one. `scaled` is the
/// number of tokens in thousands or millions.
pub open spec fn trace_part(m: Metrics, scaled: Seq<char>) -> Seq<char> {
    if m.run_started {
        "#"@ + text::decimal(m.steps as nat) + " · "@ + text::decimal(m.llm_calls as nat)
            + " LLM · "@ + text::decimal(m.tool_calls as nat) + " tools · "@ + human(
            m.total_tokens as nat,
            scaled,
            "K"@,
            "M"@,
        ) + " tok | "@
    } else {
        Seq::empty()
    }
}

fn token_text(n: u64, scaled: &str) -> (r: String)
    ensures
        r@ == human(n as nat, scaled@, "K"@, "M"@),
{
    if n >= 1_000_000 {
        text::cat2(scaled, "M")
    } else if n >= 1_000 {
        text::cat2(scaled, "K")
    } else {
        text::decimal_of(n)
    }
}

fn trace_text(m: &Metrics, scaled: &str) -> (r: String)
    ensures
        r@ == trace_part(*m, scaled@),
{
    if !m.run_started {
        return String::new();
    }
    let start = text::cat4(
        "#",
        text::decimal_of(m.steps as u64).as_str(),
        " · ",
        text::decimal_of(m.llm_calls as u64).as_str(),
    );
    let tools = text::decimal_of(m.tool_calls as u64);
    let tokens = token_text(m.total_tokens, scaled);
    text::cat6(start.as_str(), " LLM · ", tools.as_str(), " tools · ", tokens.as_str(), " tok | ")
}

/// The style of the bar.
#[verifier::allow_in_spec]
pub fn status_style() -> Style
    returns
        Style::fg(theme::text_dim()).on(theme::status_bg()),
{
    Style::fg(theme::text_dim()).on(theme::status_bg())
}

/// What the status bar draws from, beside the interface's own state.
pub struct StatusFacts {
    /// The task list.
    pub todos: Vec<TodoItem>,
    /// The numbers of the run.
    pub metrics: Metrics,
    /// The tokens of the run in thousands or millions, with one decimal.
    pub scaled_tokens: String,
    /// The time, in milliseconds.
    pub now_ms: u64,
}

/// The state on the left: the plan badge, the tasks, the run, the model, and
/// the number of messages.
pub open spec fn left_spans(a: AppView, f: StatusFacts) -> Seq<SpanView> {
    let badge = if a.plan_active {
        seq![
            span::styled_view(" PLAN "@, Style::fg(theme::WARNING).on(theme::status_bg()).bold()),
            span::styled_view("| "@, status_style()),
        ]
    } else {
        Seq::empty()
    };
    seq![span::styled_view(" "@, status_style())] + badge + seq![
        span::styled_view(
            todo_part(todo::items_view(f.todos@)) + trace_part(f.metrics, f.scaled_tokens@)
                + width::truncated(a.model, 20) + " | "@ + text::decimal(a.messages.len())
                + " msgs "@,
            status_style(),
        ),
    ]
}

/// The seconds since the run started.
pub open spec fn elapsed(started: Option<u64>, now_ms: u64) -> nat {
    match started {
        Some(t) => if now_ms >= t {
            ((now_ms - t) / 1000) as nat
        } else {
            0
        },
        None => 0,
    }
}

/// The spinner and the seconds while the agent runs; nothing otherwise.
pub open spec fn accent(a: AppView, now_ms: u64) -> Seq<char> {
    if a.streaming {
        " "@ + theme::spinner(a.spinner_frame as int) + " thinking… "@ + text::decimal(
            elapsed(a.run_started_at, now_ms),
        ) + "s "@
    } else {
        Seq::empty()
    }
}

/// The keys that matter now.
pub open spec fn key_hints(a: AppView) -> Seq<char> {
    if intervene::last_pending(a.messages) >= 0 {
        " ↑↓ nav · Enter select · Esc cancel  "@
    } else if a.streaming {
        "Esc cancel · Enter inject"@ + (if a.scroll_offset > 0 {
            " · ↑"@ + text::decimal(a.scroll_offset as nat)
        } else {
            Seq::empty()
        }) + "  "@
    } else if a.scroll_offset > 0 {
        "↑"@ + text::decimal(a.scroll_offset as nat) + " scrolled · PgDn bottom  "@
    } else {
        " Enter send · ↑ hist · / cmds · ? help  "@
    }
}

/// The columns of spans.
pub open spec fn spans_width(s: Seq<SpanView>) -> nat
    decreases s.len(),
{
    if s.len() == 0 {
        0
    } else {
        spans_width(s.drop_last()) + width::display_width(s.last().content)
    }
}

/// The columns of a line, or the largest number there is.
pub fn line_width(line: &Line) -> (r: usize)
    ensures
        r == text::capped(spans_width(line@)),
{
    let mut r: usize = 0;
    let mut i: usize = 0;
    assert(line@.take(0) =~= Seq::<SpanView>::empty());
    while i < line.spans.len()
        invariant
            i <= line.spans@.len(),
            r == text::capped(spans_width(line@.take(i as int))),
        decreases line.spans@.len() - i,
    {
        assert(line@.take(i + 1).drop_last() =~= line@.take(i as int));
        assert(line@.take(i + 1).last() == line.spans@[i as int]@);
        r = text::capped_add(r, str_width(line.spans[i].content.as_str()));
        i = i + 1;
    }
    assert(line@.take(i as int) =~= line@);
    r
}

/// The hint that is shown: none where it does not fit.
pub open spec fn shown_hint(left: nat, accent: nat, right: Seq<char>, total: nat) -> Seq<char> {
    if left + accent + width::display_width(right) + 1 > total {
        ""@
    } else {
        right
    }
}

/// The blank columns between the state and the rest: one at least.
pub open spec fn gap(used: nat, total: nat) -> nat {
    if used + 1 >= total {
        1
    } else {
        (total - used) as nat
    }
}

/// The colour of the accent.
#[verifier::allow_in_spec]
pub fn accent_color(streaming: bool) -> Color
    returns
        (if streaming {
            theme::status_accent_streaming()
        } else {
            theme::status_accent_idle()
        }),
{
    if streaming {
        theme::status_accent_streaming()
    } else {
        theme::status_accent_idle()
    }
}

/// The bar over `total` columns: the state, a gap, the accent, and the hint
/// where there is room for it.
pub open spec fn bar(
    left: Seq<SpanView>,
    accent: Seq<char>,
    right: Seq<char>,
    streaming: bool,
    total: nat,
) -> Seq<SpanView> {
    let hint = shown_hint(spans_width(left), width::display_width(accent), right, total);
    let used = spans_width(left) + width::display_width(accent) + width::display_width(hint);
    left + seq![
        span::styled_view(text::repeated(' ', gap(used, total)), status_style()),
        span::styled_view(accent, Style::fg(accent_color(streaming)).on(theme::status_bg())),
        span::styled_view(hint, Style::fg(theme::TEXT_SECONDARY).on(theme::status_bg())),
    ]
}

/// The status bar of the interface over `total` columns.
pub open spec fn status_line(a: AppView, f: StatusFacts, total: u16) -> Seq<SpanView> {
    bar(left_spans(a, f), accent(a, f.now_ms), key_hints(a), a.streaming, total as nat)
}

/// Lays the bar out over `total` columns.
pub fn lay_out(
    left: Line,
    accent: &str,
    right: &str,
    streaming: bool,
    total: u16,
) -> (r: Line)
    ensures
        r@ == bar(left@, accent@, right@, streaming, total as nat),
{
    let room: usize = total as usize;
    let left_width: usize = line_width(&left);
    let taken: usize = text::capped_add(left_width, str_width(accent));
    let with_right: usize = text::capped_add(taken, str_width(right));
    let hint: &str = if text::capped_add(with_right, 1) > room {
        ""
    } else {
        right
    };
    let used: usize = text::capped_add(taken, str_width(hint));
    let blank: usize = if used >= room {
        1
    } else {
        room - used
    };
    let ghost before = left@;
    let mut r = left;
    r.push(styled(text::repeat(' ', blank).as_str(), status_style()));
    r.push(styled(accent, Style::fg(accent_color(streaming)).on(theme::status_bg())));
    r.push(styled(hint, Style::fg(theme::TEXT_SECONDARY).on(theme::status_bg())));
    assert(r@ =~= bar(before, accent@, right@, streaming, total as nat));
    r
}

impl App {
    fn status_left(&self, f: &StatusFacts) -> (r: Line)
        ensures
            r@ == left_spans(self@, *f),
    {
        reveal(app::app_view);
        let mut r = Line::new();
        r.push(styled(" ", status_style()));
        if self.plan_active {
            r.push(styled(" PLAN ", Style::fg(theme::WARNING).on(theme::status_bg()).bold()));
            r.push(styled("| ", status_style()));
        }
        let todos = todo_text(&f.todos);
        let trace = trace_text(&f.metrics, f.scaled_tokens.as_str());
        let model = truncate_to_width(self.model.as_str(), 20);
        let count = text::decimal_of(self.messages.len() as u64);
        let state = text::cat6(
            todos.as_str(),
            trace.as_str(),
            model.as_str(),
            " | ",
            count.as_str(),
            " msgs ",
        );
        r.push(styled(state.as_str(), status_style()));
        assert(r@ =~= left_spans(self@, *f));
        r
    }

    fn status_accent(&self, now_ms: u64) -> (r: String)
        ensures
            r@ == accent(self@, now_ms),
    {
        reveal(app::app_view);
        if !self.streaming {
            return String::new();
        }
        let seconds: u64 = match self.run_started_at {
            Some(t) => if now_ms >= t {
                (now_ms - t) / 1000
            } else {
                0
            },
            None => 0,
        };
        text::cat5(
            " ",
            theme::spinner_frame(self.spinner_frame),
            " thinking… ",
            text::decimal_of(seconds).as_str(),
            "s ",
        )
    }

    fn status_hints(&self) -> (r: String)
        ensures
            r@ == key_hints(self@),
    {
        let pending = self.has_pending_intervene();
        reveal(app::app_view);
        if pending {
            " ↑↓ nav · Enter select · Esc cancel  ".to_owned()
        } else if self.streaming {
            let scrolled = if self.scroll_offset > 0 {
                text::cat2(" · ↑", text::decimal_of(self.scroll_offset as u64).as_str())
            } else {
                String::new()
            };
            text::cat3("Esc cancel · Enter inject", scrolled.as_str(), "  ")
        } else if self.scroll_offset > 0 {
            let scrolled = text::decimal_of(self.scroll_offset as u64);
            text::cat3("↑", scrolled.as_str(), " scrolled · PgDn bottom  ")
        } else {
            " Enter send · ↑ hist · / cmds · ? help  ".to_owned()
        }
    }

    fn is_running(&self) -> (r: bool)
        ensures
            r == self@.streaming,
    {
        reveal(app::app_view);
        self.streaming
    }

    /// The parts of the status bar: the state, the accent, and the hints.
    pub fn build_status_content(&self, f: &StatusFacts) -> (r: (Line, String, String))
        ensures
            r.0@ == left_spans(self@, *f),
            r.1@ == accent(self@, f.now_ms),
            r.2@ == key_hints(self@),
    {
        (self.status_left(f), self.status_accent(f.now_ms), self.status_hints())
    }

    /// The status bar over `total` columns.
    pub fn status_line(&self, f: &StatusFacts, total: u16) -> (r: Line)
        ensures
            r@ == status_line(self@, *f, total),
    {
        let (left, accent, right) = self.build_status_content(f);
        lay_out(left, accent.as_str(), right.as_str(), self.is_running(), total)
    }
}

// ── Laws ────────────────────────────────────────────────────────────────

/// The state is never given up for the hints: the bar begins with it,
/// whatever its width.
pub proof fn law_state_is_always_shown(a: AppView, f: StatusFacts, total: u16)
    ensures
        status_line(a, f, total).len() == left_spans(a, f).len() + 3,
        status_line(a, f, total).take(left_spans(a, f).len() as int) == left_spans(a, f),
{
    let left = left_spans(a, f);
    assert(status_line(a, f, total).take(left.len() as int) =~= left);
}

/// Where the hints are shown, the whole bar fits: the state, the gap, the
/// accent and the hints take exactly the columns that there are.
pub proof fn law_hints_are_shown_where_they_fit(
    left: nat,
    accent: nat,
    right: Seq<char>,
    total: nat,
)
    ensures
        shown_hint(left, accent, right, total) == right || shown_hint(left, accent, right, total)
            == ""@,
        left + accent + width::display_width(right) + 1 <= total ==> {
            let used = left + accent + width::display_width(right);
            &&& shown_hint(left, accent, right, total) == right
            &&& used + gap(used, total) == total
        },
{
}

} // verus!
