//! The debug overlay: a table of recent trace events.

use vstd::prelude::*;
use crate::hooks::observability_hook::Usage;
use crate::text;
use crate::tui::span::{self, line1, line2, push_line, raw, styled, Line, SpanView};
use crate::tui::theme::{Color, Style};

verus! {

/// How many recent events are kept.
pub const MAX_DISPLAY_EVENTS: usize = 100;

/// The figures of an event, written out with one decimal: the seconds of its
/// duration, and the thousands of its tokens, or their millions from a
/// million on.
#[derive(Clone, Debug)]
pub struct Figures {
    pub seconds: String,
    pub tokens: String,
}

/// A duration: milliseconds below a second, else seconds.
pub open spec fn duration_text(ms: u64, seconds: Seq<char>) -> Seq<char> {
    if ms >= 1000 {
        seconds + "s"@
    } else {
        text::decimal(ms as nat) + "ms"@
    }
}

/// Formats a duration, such as `1.2s` or `345ms`.
pub fn format_duration(ms: u64, seconds: &str) -> (r: String)
    ensures
        r@ == duration_text(ms, seconds@),
{
    if ms >= 1000 {
        text::cat2(seconds, "s")
    } else {
        text::cat2(text::decimal_of(ms).as_str(), "ms")
    }
}

/// A number of tokens for a narrow column.
pub open spec fn tokens_text(count: u32, scaled: Seq<char>) -> Seq<char> {
    if count >= 1_000_000 {
        scaled + "M"@
    } else if count >= 1_000 {
        scaled + "K"@
    } else if count > 0 {
        text::decimal(count as nat)
    } else {
        "-"@
    }
}

/// Formats a number of tokens, such as `1.2K` or `345`.
pub fn format_tokens_short(count: u32, scaled: &str) -> (r: String)
    ensures
        r@ == tokens_text(count, scaled@),
{
    if count >= 1_000_000 {
        text::cat2(scaled, "M")
    } else if count >= 1_000 {
        text::cat2(scaled, "K")
    } else if count > 0 {
        text::decimal_of(count as u64)
    } else {
        "-".to_owned()
    }
}

/// Something that happened in a run.
#[derive(Clone, Debug)]
pub enum TraceEvent {
    RunStarted { session_id: String, user_input: String, max_steps: usize, max_retries: usize },
    RunFinished {
        outcome: String,
        total_duration: u64,
        total_steps: usize,
        total_llm_calls: usize,
        total_tool_calls: usize,
        cumulative_usage: Usage,
    },
    StepStarted { step: usize },
    LlmCallStarted { step: usize, attempt: usize, message_count: usize },
    LlmCallFinished {
        step: usize,
        attempt: usize,
        duration: u64,
        usage: Usage,
        finish_reason: Option<String>,
    },
    LlmCallFailed {
        step: usize,
        attempt: usize,
        error: String,
        will_retry: bool,
        duration: u64,
    },
    ToolCallStarted { tool_call_id: String, tool_name: String, step: usize },
    ToolCallFinished {
        tool_call_id: String,
        tool_name: String,
        duration: u64,
        success: bool,
        output_size_bytes: usize,
    },
    ToolCallRejected { tool_call_id: String, tool_name: String, reason: String },
    StreamingSummary { step: usize, content_chunks: usize, reasoning_chunks: usize },
    SubagentFinished {
        description: String,
        steps: usize,
        llm_calls: usize,
        tool_calls: usize,
        usage: Usage,
        duration: u64,
    },
}

/// A number in decimal.
pub open spec fn num(n: usize) -> Seq<char> {
    text::decimal(n as nat)
}

fn num_of(n: usize) -> (r: String)
    ensures
        r@ == num(n),
{
    text::decimal_of(n as u64)
}

/// The start of an input: the whole of a short one, and else its first sixty
/// bytes of whole characters, with an ellipsis.
pub open spec fn input_detail(s: Seq<char>) -> Seq<char> {
    if text::byte_len(s) > 60 {
        s.take(text::floor_index(s, 60)) + "…"@
    } else {
        s
    }
}

fn input_detail_of(s: &str) -> (r: String)
    ensures
        r@ == input_detail(s@),
{
    if text::byte_len_of(s) > 60 {
        let cs = text::chars_of(s);
        let k: usize = text::floor_chars(&cs, 60);
        assert(cs@.subrange(0, k as int) =~= s@.take(k as int));
        text::cat2(text::string_of_range(&cs, 0, k).as_str(), "…")
    } else {
        s.to_owned()
    }
}

/// A duration and a number of tokens in their columns.
pub open spec fn columns(label: Seq<char>, ms: u64, tokens: u32, f: Figures) -> Seq<char> {
    label + text::padded_left(duration_text(ms, f.seconds@), 6, ' ') + " "@ + text::padded_left(
        tokens_text(tokens, f.tokens@),
        6,
        ' ',
    ) + "  "@
}

fn columns_of(label: &str, ms: u64, tokens: u32, f: &Figures) -> (r: String)
    ensures
        r@ == columns(label@, ms, tokens, *f),
{
    text::cat5(
        label,
        text::pad_left(format_duration(ms, f.seconds.as_str()).as_str(), 6, ' ').as_str(),
        " ",
        text::pad_left(format_tokens_short(tokens, f.tokens.as_str()).as_str(), 6, ' ').as_str(),
        "  ",
    )
}

/// The numbers of a run or a subagent.
pub open spec fn totals(steps: usize, llm: usize, tools: usize) -> Seq<char> {
    "s="@ + num(steps) + " llm="@ + num(llm) + " tools="@ + num(tools)
}

fn totals_of(steps: usize, llm: usize, tools: usize) -> (r: String)
    ensures
        r@ == totals(steps, llm, tools),
{
    text::cat6(
        "s=",
        num_of(steps).as_str(),
        " llm=",
        num_of(llm).as_str(),
        " tools=",
        num_of(tools).as_str(),
    )
}

/// A line of a coloured label and a grey detail.
pub open spec fn event_line(label: Seq<char>, color: Color, detail: Seq<char>) -> Seq<SpanView> {
    seq![
        span::styled_view(label, Style::fg(color)),
        span::styled_view(detail, Style::fg(Color::DarkGray)),
    ]
}

fn event_line_of(label: &str, color: Color, detail: &str) -> (r: Line)
    ensures
        r@ == event_line(label@, color, detail@),
{
    line2(styled(label, Style::fg(color)), styled(detail, Style::fg(Color::DarkGray)))
}

/// The label of a call to the model.
pub open spec fn call_label(step: usize, attempt: usize) -> Seq<char> {
    if attempt > 0 {
        " → LLM #"@ + num(step) + " retry#"@ + num(attempt) + "    "@
    } else {
        " → LLM #"@ + num(step) + "              "@
    }
}

/// The line of an event.
pub open spec fn trace_line(e: TraceEvent, f: Figures) -> Seq<SpanView> {
    match e {
        TraceEvent::RunStarted { user_input, .. } => event_line(
            " ▶ RunStarted           "@,
            Color::Rgb(200, 200, 210),
            "        "@ + input_detail(user_input@),
        ),
        TraceEvent::RunFinished {
            outcome,
            total_duration,
            total_steps,
            total_llm_calls,
            total_tool_calls,
            cumulative_usage,
        } => event_line(
            columns(
                " ✓ RunFinished          "@,
                total_duration,
                cumulative_usage.total_tokens,
                f,
            ),
            Color::Green,
            totals(total_steps, total_llm_calls, total_tool_calls) + " "@ + outcome@,
        ),
        TraceEvent::StepStarted { step } => seq![
            span::styled_view(
                " # Step "@ + text::padded_right(num(step), 61, ' '),
                Style::fg(Color::Cyan),
            ),
        ],
        TraceEvent::LlmCallStarted { step, attempt, message_count } => event_line(
            call_label(step, attempt),
            Color::Yellow,
            "        "@ + num(message_count) + " msgs"@,
        ),
        TraceEvent::LlmCallFinished { duration, usage, finish_reason, .. } => event_line(
            columns(" ← LLM done             "@, duration, usage.total_tokens, f),
            Color::Green,
            match finish_reason {
                Some(s) => s@,
                None => "-"@,
            },
        ),
        TraceEvent::LlmCallFailed { attempt, error, will_retry, .. } => event_line(
            " ✗ LLM fail (retry #"@ + num(attempt) + ")     "@,
            Color::Red,
            (if will_retry {
                "will retry"@
            } else {
                "terminal"@
            }) + ": "@ + error@,
        ),
        TraceEvent::ToolCallStarted { tool_name, step, .. } => seq![
            span::styled_view(
                " ◌ "@ + text::padded_right(tool_name@, 17, ' ') + " (#"@ + num(step) + ")  "@,
                Style::fg(Color::Yellow),
            ),
        ],
        TraceEvent::ToolCallFinished { tool_name, duration, success, output_size_bytes, .. } =>
            event_line(
            (if success {
                " ✓ "@
            } else {
                " ✗ "@
            }) + text::padded_right(tool_name@, 17, ' ') + " "@ + text::padded_left(
                duration_text(duration, f.seconds@),
                6,
                ' ',
            ) + "         "@,
            if success {
                Color::Green
            } else {
                Color::Red
            },
            num(output_size_bytes) + " bytes"@,
        ),
        TraceEvent::ToolCallRejected { tool_name, reason, .. } => event_line(
            " ⊘ "@ + text::padded_right(tool_name@, 17, ' ') + " REJECTED "@,
            Color::Red,
            reason@,
        ),
        TraceEvent::StreamingSummary { step, content_chunks, reasoning_chunks } => event_line(
            " ~ Stream step#"@ + text::padded_right(num(step), 52, ' '),
            Color::DarkGray,
            "content="@ + num(content_chunks) + " reasoning="@ + num(reasoning_chunks),
        ),
        TraceEvent::SubagentFinished {
            description,
            steps,
            llm_calls,
            tool_calls,
            usage,
            duration,
        } => event_line(
            columns(" 📦 Subagent            "@, duration, usage.total_tokens, f),
            Color::Magenta,
            description@ + " "@ + totals(steps, llm_calls, tool_calls),
        ),
    }
}

fn call_label_of(step: usize, attempt: usize) -> (r: String)
    ensures
        r@ == call_label(step, attempt),
{
    if attempt > 0 {
        text::cat5(
            " → LLM #",
            num_of(step).as_str(),
            " retry#",
            num_of(attempt).as_str(),
            "    ",
        )
    } else {
        text::cat3(" → LLM #", num_of(step).as_str(), "              ")
    }
}

/// The line of an event.
pub fn format_trace_event(e: &TraceEvent, f: &Figures) -> (r: Line)
    ensures
        r@ == trace_line(*e, *f),
{
    match e {
        TraceEvent::RunStarted { user_input, .. } => event_line_of(
            " ▶ RunStarted           ",
            Color::Rgb(200, 200, 210),
            text::cat2("        ", input_detail_of(user_input.as_str()).as_str()).as_str(),
        ),
        TraceEvent::RunFinished {
            outcome,
            total_duration,
            total_steps,
            total_llm_calls,
            total_tool_calls,
            cumulative_usage,
        } => event_line_of(
            columns_of(
                " ✓ RunFinished          ",
                *total_duration,
                cumulative_usage.total_tokens,
                f,
            ).as_str(),
            Color::Green,
            text::cat3(
                totals_of(*total_steps, *total_llm_calls, *total_tool_calls).as_str(),
                " ",
                outcome.as_str(),
            ).as_str(),
        ),
        TraceEvent::StepStarted { step } => line1(
            styled(
                text::cat2(
                    " # Step ",
                    text::pad_right(num_of(*step).as_str(), 61).as_str(),
                ).as_str(),
                Style::fg(Color::Cyan),
            ),
        ),
        TraceEvent::LlmCallStarted { step, attempt, message_count } => event_line_of(
            call_label_of(*step, *attempt).as_str(),
            Color::Yellow,
            text::cat3("        ", num_of(*message_count).as_str(), " msgs").as_str(),
        ),
        TraceEvent::LlmCallFinished { duration, usage, finish_reason, .. } => {
            let reason = match finish_reason {
                Some(s) => s.as_str(),
                None => "-",
            };
            event_line_of(
                columns_of(" ← LLM done             ", *duration, usage.total_tokens, f).as_str(),
                Color::Green,
                reason,
            )
        },
        TraceEvent::LlmCallFailed { attempt, error, will_retry, .. } => {
            let retry = if *will_retry {
                "will retry"
            } else {
                "terminal"
            };
            event_line_of(
                text::cat3(" ✗ LLM fail (retry #", num_of(*attempt).as_str(), ")     ").as_str(),
                Color::Red,
                text::cat3(retry, ": ", error.as_str()).as_str(),
            )
        },
        TraceEvent::ToolCallStarted { tool_name, step, .. } => line1(
            styled(
                text::cat5(
                    " ◌ ",
                    text::pad_right(tool_name.as_str(), 17).as_str(),
                    " (#",
                    num_of(*step).as_str(),
                    ")  ",
                ).as_str(),
                Style::fg(Color::Yellow),
            ),
        ),
        TraceEvent::ToolCallFinished { tool_name, duration, success, output_size_bytes, .. } => {
            let marker = if *success {
                " ✓ "
            } else {
                " ✗ "
            };
            let color = if *success {
                Color::Green
            } else {
                Color::Red
            };
            event_line_of(
                text::cat5(
                    marker,
                    text::pad_right(tool_name.as_str(), 17).as_str(),
                    " ",
                    text::pad_left(
                        format_duration(*duration, f.seconds.as_str()).as_str(),
                        6,
                        ' ',
                    ).as_str(),
                    "         ",
                ).as_str(),
                color,
                text::cat2(num_of(*output_size_bytes).as_str(), " bytes").as_str(),
            )
        },
        TraceEvent::ToolCallRejected { tool_name, reason, .. } => event_line_of(
            text::cat3(
                " ⊘ ",
                text::pad_right(tool_name.as_str(), 17).as_str(),
                " REJECTED ",
            ).as_str(),
            Color::Red,
            reason.as_str(),
        ),
        TraceEvent::StreamingSummary { step, content_chunks, reasoning_chunks } => event_line_of(
            text::cat2(
                " ~ Stream step#",
                text::pad_right(num_of(*step).as_str(), 52).as_str(),
            ).as_str(),
            Color::DarkGray,
            text::cat4(
                "content=",
                num_of(*content_chunks).as_str(),
                " reasoning=",
                num_of(*reasoning_chunks).as_str(),
            ).as_str(),
        ),
        TraceEvent::SubagentFinished {
            description,
            steps,
            llm_calls,
            tool_calls,
            usage,
            duration,
        } => event_line_of(
            columns_of(" 📦 Subagent            ", *duration, usage.total_tokens, f).as_str(),
            Color::Magenta,
            text::cat3(
                description.as_str(),
                " ",
                totals_of(*steps, *llm_calls, *tool_calls).as_str(),
            ).as_str(),
        ),
    }
}

// ── The overlay ─────────────────────────────────────────────────────────

/// The overlay with recent events.
pub struct DebugOverlay {
    /// Whether it is shown.
    pub visible: bool,
    /// How many events it is scrolled back; zero shows the newest.
    pub scroll_offset: usize,
    /// The events, oldest first.
    pub events: Vec<TraceEvent>,
}

/// The last `n` of a sequence, or all of it.
pub open spec fn last_of(s: Seq<TraceEvent>, n: nat) -> Seq<TraceEvent> {
    if s.len() > n {
        s.skip(s.len() - n)
    } else {
        s
    }
}

/// A scroll position within `n` events.
pub open spec fn clamped(offset: usize, n: nat) -> int {
    if offset < n {
        offset as int
    } else if n > 0 {
        n - 1
    } else {
        0
    }
}

/// The first and the one behind the last event that are visible: `rows` of
/// them, back from the scroll position.
pub open spec fn window(total: nat, offset: nat, rows: nat) -> (int, int) {
    if offset >= total {
        (0, 0)
    } else if offset + rows >= total {
        (0, total - offset)
    } else {
        (total - offset - rows, total - offset)
    }
}

/// The lines of the events from `from` to `to`.
pub open spec fn trace_lines(
    events: Seq<TraceEvent>,
    figures: Seq<Figures>,
    from: int,
    to: int,
) -> Seq<Seq<SpanView>> {
    Seq::new((to - from) as nat, |i: int| trace_line(events[from + i], figures[from + i]))
}

/// A note in grey.
pub open spec fn dim_note(s: Seq<char>) -> Seq<SpanView> {
    seq![span::styled_view(s, Style::fg(Color::DarkGray).dim())]
}

/// The note below the events.
pub open spec fn footer(total: nat, offset: nat) -> Seq<char> {
    " ↑↓ scroll  Esc close  "@ + text::decimal(total) + " events"@ + (if offset > 0 {
        " ↑"@ + text::decimal(offset) + " scrolled "@
    } else {
        Seq::empty()
    }) + " "@
}

/// The lines of the overlay: a header, the visible events, blank lines up to
/// the number of rows, and a footer.
pub open spec fn overlay_lines(o: DebugOverlay, figures: Seq<Figures>, rows: nat) -> Seq<
    Seq<SpanView>,
> {
    let total = o.events@.len();
    let (from, to) = window(total, o.scroll_offset as nat, rows);
    let shown = trace_lines(o.events@, figures, from, to);
    seq![dim_note("  Event                 Dur     Tokens   Detail"@)] + shown + Seq::new(
        text::missing(shown.len(), rows),
        |i: int| span::blank(),
    ) + seq![dim_note(footer(total, o.scroll_offset as nat))]
}

/// What the overlay holds.
pub struct OverlayView {
    pub visible: bool,
    pub scroll_offset: usize,
    pub events: Seq<TraceEvent>,
}

impl View for DebugOverlay {
    type V = OverlayView;

    open spec fn view(&self) -> OverlayView {
        OverlayView {
            visible: self.visible,
            scroll_offset: self.scroll_offset,
            events: self.events@,
        }
    }
}

impl OverlayView {
    /// The overlay shown where it was hidden, and hidden where it was shown.
    pub open spec fn toggled(self) -> OverlayView {
        OverlayView { visible: !self.visible, ..self }
    }

    /// The overlay scrolled up by `n` events.
    pub open spec fn scrolled_up(self, n: nat) -> OverlayView {
        OverlayView { scroll_offset: text::capped(self.scroll_offset as nat + n) as usize, ..self }
    }

    /// The overlay scrolled down by `n` events.
    pub open spec fn scrolled_down(self, n: nat) -> OverlayView {
        OverlayView {
            scroll_offset: if self.scroll_offset < n {
                0
            } else {
                (self.scroll_offset - n) as usize
            },
            ..self
        }
    }
}

impl Default for DebugOverlay {
    fn default() -> (r: DebugOverlay)
        ensures
            !r.visible,
            r.scroll_offset == 0,
            r.events@ == Seq::<TraceEvent>::empty(),
    {
        DebugOverlay { visible: false, scroll_offset: 0, events: Vec::new() }
    }
}

impl DebugOverlay {
    /// A hidden overlay without events.
    pub fn new() -> (r: DebugOverlay)
        ensures
            !r.visible,
            r.scroll_offset == 0,
            r.events@ == Seq::<TraceEvent>::empty(),
    {
        DebugOverlay { visible: false, scroll_offset: 0, events: Vec::new() }
    }

    /// Takes in new events, and keeps the most recent ones.
    pub fn sync(&mut self, new_events: Vec<TraceEvent>)
        ensures
            final(self).events@ == last_of(
                old(self).events@ + new_events@,
                MAX_DISPLAY_EVENTS as nat,
            ),
            final(self).scroll_offset == clamped(
                old(self).scroll_offset,
                final(self).events@.len(),
            ),
            final(self).visible == old(self).visible,
    {
        let ghost all = self.events@ + new_events@;
        let mut new_events = new_events;
        self.events.append(&mut new_events);
        assert(self.events@ =~= all);
        let n: usize = self.events.len();
        if n > MAX_DISPLAY_EVENTS {
            let tail = self.events.split_off(n - MAX_DISPLAY_EVENTS);
            assert(tail@ =~= all.skip(n - MAX_DISPLAY_EVENTS));
            self.events = tail;
        }
        if self.scroll_offset >= self.events.len() {
            let n: usize = self.events.len();
            self.scroll_offset = if n > 0 {
                n - 1
            } else {
                0
            };
        }
    }

    /// Shows the overlay where it is hidden, and hides it where it is shown.
    pub fn toggle(&mut self)
        ensures
            final(self)@ == old(self)@.toggled(),
    {
        self.visible = !self.visible;
    }

    /// Scrolls back by `n` events.
    pub fn scroll_up(&mut self, n: usize)
        ensures
            final(self)@ == old(self)@.scrolled_up(n as nat),
    {
        self.scroll_offset = self.scroll_offset.saturating_add(n);
    }

    /// Scrolls forward by `n` events.
    pub fn scroll_down(&mut self, n: usize)
        ensures
            final(self)@ == old(self)@.scrolled_down(n as nat),
    {
        self.scroll_offset = self.scroll_offset.saturating_sub(n);
    }

    /// The number of events.
    pub fn len(&self) -> (r: usize)
        ensures
            r == self.events@.len(),
    {
        self.events.len()
    }

    /// Whether there are no events.
    pub fn is_empty(&self) -> (r: bool)
        ensures
            r == (self.events@.len() == 0),
    {
        self.events.len() == 0
    }

    /// The title of the overlay.
    pub fn title(&self) -> (r: String)
        ensures
            r@ == " Debug Trace — "@ + text::decimal(self.events@.len()) + " events "@,
    {
        text::cat3(" Debug Trace — ", num_of(self.events.len()).as_str(), " events ")
    }

    fn footer_text(&self) -> (r: String)
        ensures
            r@ == footer(self.events@.len(), self.scroll_offset as nat),
    {
        let scrolled = if self.scroll_offset > 0 {
            text::cat3(" ↑", num_of(self.scroll_offset).as_str(), " scrolled ")
        } else {
            String::new()
        };
        text::cat5(
            " ↑↓ scroll  Esc close  ",
            num_of(self.events.len()).as_str(),
            " events",
            scrolled.as_str(),
            " ",
        )
    }

    /// The lines of the overlay, with room for `rows` events; each event has
    /// its figures.
    pub fn lines(&self, figures: &Vec<Figures>, rows: usize) -> (r: Vec<Line>)
        requires
            figures@.len() == self.events@.len(),
        ensures
            span::lines_view(r@) == overlay_lines(*self, figures@, rows as nat),
    {
        let total: usize = self.events.len();
        let start: usize = self.scroll_offset;
        let to: usize = if start < total {
            total - start
        } else {
            0
        };
        let from: usize = if to > rows {
            to - rows
        } else {
            0
        };
        assert((from as int, to as int) == window(total as nat, start as nat, rows as nat));
        let ghost head = seq![dim_note("  Event                 Dur     Tokens   Detail"@)];
        let ghost shown = trace_lines(self.events@, figures@, from as int, to as int);
        let mut lines: Vec<Line> = Vec::new();
        push_line(
            &mut lines,
            line1(
                styled(
                    "  Event                 Dur     Tokens   Detail",
                    Style::fg(Color::DarkGray).dim(),
                ),
            ),
        );
        assert(span::lines_view(lines@) =~= head + shown.take(0));
        let mut i: usize = from;
        while i < to
            invariant
                from <= i <= to,
                to <= self.events@.len(),
                figures@.len() == self.events@.len(),
                shown == trace_lines(self.events@, figures@, from as int, to as int),
                span::lines_view(lines@) == head + shown.take(i - from),
            decreases to - i,
        {
            push_line(&mut lines, format_trace_event(&self.events[i], &figures[i]));
            i = i + 1;
            assert(span::lines_view(lines@) =~= head + shown.take(i - from));
        }
        assert(shown.take(i - from) =~= shown);
        let ghost gap = Seq::new(text::missing(shown.len(), rows as nat), |i: int| span::blank());
        let mut j: usize = to - from;
        assert(span::lines_view(lines@) =~= head + shown + gap.take(0));
        while j < rows
            invariant
                to - from <= j <= rows,
                shown.len() == to - from,
                gap == Seq::new(text::missing(shown.len(), rows as nat), |i: int| span::blank()),
                span::lines_view(lines@) == head + shown + gap.take(j - (to - from)),
            decreases rows - j,
        {
            push_line(&mut lines, line1(raw("")));
            j = j + 1;
            assert(span::lines_view(lines@) =~= head + shown + gap.take(j - (to - from)));
        }
        assert(gap.take(j - (to - from)) =~= gap);
        push_line(
            &mut lines,
            line1(styled(self.footer_text().as_str(), Style::fg(Color::DarkGray).dim())),
        );
        assert(span::lines_view(lines@) =~= overlay_lines(*self, figures@, rows as nat));
        lines
    }
}

// ── Laws ────────────────────────────────────────────────────────────────

/// The overlay never keeps more than its limit, and what it keeps are the
/// newest events.
pub proof fn law_newest_events_are_kept(old_events: Seq<TraceEvent>, new_events: Seq<TraceEvent>)
    ensures
        ({
            let kept = last_of(old_events + new_events, MAX_DISPLAY_EVENTS as nat);
            &&& kept.len() <= MAX_DISPLAY_EVENTS
            &&& new_events.len() > 0 ==> kept.last() == new_events.last()
            &&& old_events.len() + new_events.len() <= MAX_DISPLAY_EVENTS ==> kept == old_events
                + new_events
        }),
{
}

/// The overlay fills its rows: a header, as many lines as there are rows,
/// and a footer, whatever it is scrolled to.
pub proof fn law_overlay_fills_its_rows(o: DebugOverlay, figures: Seq<Figures>, rows: nat)
    ensures
        overlay_lines(o, figures, rows).len() == rows + 2,
{
}

/// Where the overlay is not scrolled, the newest event is visible.
pub proof fn law_newest_event_is_visible(total: nat, rows: nat)
    requires
        total > 0,
        rows > 0,
    ensures
        window(total, 0, rows).0 < total,
        window(total, 0, rows).1 == total,
{
}

} // verus!
