//! What is shown of the run and of long texts, stated on what is shown.

use vstd::prelude::*;
use crate::hooks::observability_hook::{self, HookView, Metrics, Usage};
use crate::hooks::RunOutcome;
use crate::memory::RecordView;
use crate::text;
use crate::text_laws;
use crate::tools::todo::{self, ItemView};
use crate::tui::app::AppView;
use crate::tui::debug::{self, Figures, OverlayView, TraceEvent};
use crate::tui::intervene;
use crate::tui::messages::{self, MessageView};
use crate::tui::span::{self, SpanView};
use crate::tui::status;
use crate::tui::theme::Style;
use crate::tui::typing_laws::is_open_question;
use crate::tui::width::{self, display_width};
use crate::tui::wrap;

verus! {

// ── Long texts ──────────────────────────────────────────────────────────

/// A text that is cut keeps a front part and ends in an ellipsis; one that
/// fits is shown whole.
pub proof fn law_cut_texts(s: Seq<char>, max: nat)
    ensures
        ({
            let t = width::truncated(s, max);
            &&& display_width(s) <= max ==> t == s
            &&& display_width(s) > max ==> t.len() > 0 && t.last() == '…' && t.len() <= s.len() + 1
                && t.drop_last() == s.take(t.len() - 1)
        }),
{
    reveal_strlit("…");
    assert("…"@ =~= seq!['…']);
    if display_width(s) > max {
        let n = width::counted(s, width::less_one(max));
        lemma_counted_few(s, width::less_one(max));
        let room = if max > 0 {
            max
        } else {
            1
        };
        let front = s.take(n as int);
        let k = width::fit_from(front, "…"@, 0, room);
        lemma_fit_few(front, "…"@, 0, room);
        assert(s.take(k).push('…') =~= s.take(k) + "…"@);
        assert((s.take(k) + "…"@).drop_last() =~= s.take(k));
    }
}

proof fn lemma_counted_few(s: Seq<char>, max: nat)
    ensures
        width::counted(s, max) <= s.len(),
    decreases s.len(),
{
    if s.len() > 0 && width::cols_of(s[0]) <= max {
        lemma_counted_few(s.skip(1), (max - width::cols_of(s[0])) as nat);
    }
}

proof fn lemma_fit_few(s: Seq<char>, tail: Seq<char>, k: int, max: nat)
    requires
        0 <= k <= s.len(),
    ensures
        k <= width::fit_from(s, tail, k, max) <= s.len(),
    decreases s.len() - k,
{
    if k < s.len() && display_width(s.take(k + 1) + tail) <= max {
        lemma_fit_few(s, tail, k + 1, max);
    }
}

/// A row is filled: the part of a text that goes into it fits, and with one
/// character more it would not, by the columns of the part or of its
/// characters. A character that is too wide has a row of its own.
pub proof fn law_rows_are_filled(s: Seq<char>, max: nat)
    requires
        s.len() > 0,
    ensures
        ({
            let k = width::split_count(s, max);
            &&& 1 <= k <= s.len()
            &&& k > 1 ==> display_width(s.take(k)) <= max
            &&& 1 < k < s.len() ==> display_width(s.take(k + 1)) > max || width::cols(
                s.take(k + 1),
            ) > max
        }),
{
    width::lemma_fit_count(s, max);
}

/// A line of one piece that is too wide goes on from row to row: the first row
/// has the front of it, and the rest is wrapped in the same way.
pub proof fn law_long_lines_go_on(content: Seq<char>, style: Style, max: nat)
    requires
        content.len() > 0,
        display_width(content) > max,
    ensures
        ({
            let rows = wrap::wrapped(seq![seq![span::styled_view(content, style)]], max);
            let k = width::split_count(content, max);
            &&& rows.len() > 0
            &&& rows[0] == seq![span::styled_view(content.take(k), style)]
            &&& rows.skip(1) == wrap::split_rows(content.skip(k), style, max)
        }),
{
    let s = span::styled_view(content, style);
    let line = seq![s];
    let none = Seq::<SpanView>::empty();
    let no_rows = Seq::<Seq<SpanView>>::empty();
    assert(line.drop_last() =~= none);
    assert(wrap::line_width(none) == 0);
    assert(wrap::line_width(line) == display_width(content));
    assert(wrap::line_text(none) =~= Seq::<char>::empty());
    let w0 = wrap::wrap_spans(none, max);
    let w = wrap::wrap_spans(line, max);
    assert(w == wrap::wrap_span(w0, s, max));
    let split = wrap::split_rows(content, style, max);
    assert(w.rows =~= split);
    assert(wrap::wrapped_line(line, max) == split);
    assert(seq![line].drop_last() =~= no_rows);
    assert(wrap::wrapped(no_rows, max) =~= no_rows);
    let rows = wrap::wrapped(seq![line], max);
    assert(rows =~= split);
    let k = width::split_count(content, max);
    assert(rows.skip(1) =~= wrap::split_rows(content.skip(k), style, max));
}

/// A line takes as many rows as it needs and no more, and at least one.
pub proof fn law_rows_of_a_line(line: Seq<char>, w: nat)
    requires
        w > 0,
    ensures
        ({
            let r = wrap::rows_of_line(line, w);
            &&& r >= 1
            &&& line.len() > 0 ==> display_width(line) <= r * w
            &&& line.len() > 0 && display_width(line) > 0 ==> (r - 1) * w < display_width(line)
        }),
{
    let n = display_width(line);
    if line.len() > 0 && n > 0 {
        let r = (n + w - 1) as nat / w;
        assert(r >= 1 && n <= r * w && (r - 1) * w < n) by (nonlinear_arith)
            requires
                r == (n + w - 1) as nat / w,
                n > 0,
                w > 0,
        ;
    } else {
        assert(0 <= 1 * w);
    }
}

/// The rows of a message are reckoned from its text behind its mark.
pub proof fn law_messages_are_measured(s: Seq<char>, t: Seq<char>)
    ensures
        wrap::estimate_text(MessageView::User { content: s, timestamp: t }) == "> "@ + s,
        wrap::estimate_text(MessageView::Assistant { content: s, timestamp: t }) == s,
        wrap::estimate_text(MessageView::Reasoning { content: s, timestamp: t }) == s,
        wrap::estimate_text(MessageView::System { content: s, timestamp: t }) == "  ℹ "@ + s,
        wrap::estimate_text(MessageView::Error { content: s, timestamp: t }) == s,
{
}

/// The rows of several lines are those of each together, and a message has at
/// least one.
pub proof fn law_rows_add_up(lines: Seq<Seq<char>>, l: Seq<char>, m: MessageView, w: nat, cols: int)
    requires
        !(m is Welcome),
    ensures
        wrap::rows_of_lines(Seq::empty(), w) == 0,
        wrap::rows_of_lines(lines.push(l), w) == wrap::rows_of_lines(lines, w) + wrap::rows_of_line(
            l,
            w,
        ),
        wrap::estimated_rows(m, cols) >= 1,
        cols > 0 && wrap::rows_of_lines(text::lines_of(wrap::estimate_text(m)), cols as nat) >= 1
            ==> wrap::estimated_rows(m, cols) == wrap::rows_of_lines(
            text::lines_of(wrap::estimate_text(m)),
            cols as nat,
        ),
{
    assert(lines.push(l).drop_last() =~= lines);
}

// ── The status line ─────────────────────────────────────────────────────

/// A number is shown exactly below a thousand, and else in thousands or
/// millions.
pub proof fn law_large_numbers(n: nat, scaled: Seq<char>, lower: Seq<char>, upper: Seq<char>)
    ensures
        n < 1000 ==> status::human(n, scaled, lower, upper) == text::decimal(n),
        1000 <= n < 1000 * 1000 ==> status::human(n, scaled, lower, upper) == scaled + lower,
        n >= 1000 * 1000 ==> status::human(n, scaled, lower, upper) == scaled + upper,
{
}

/// The task that is shown is the first that is in progress.
pub proof fn law_active_task(a: Seq<ItemView>, t: ItemView, b: Seq<ItemView>)
    requires
        forall|i: int| 0 <= i < a.len() ==> (#[trigger] a[i]).status != "in_progress"@,
    ensures
        status::active_task(a) is None,
        t.status == "in_progress"@ ==> status::active_task(a + seq![t] + b) == Some(t.active_form),
    decreases a.len() + b.len(),
{
    let all = a + seq![t] + b;
    if a.len() > 0 {
        let f = a.drop_last();
        assert forall|i: int| 0 <= i < f.len() implies (#[trigger] f[i]).status
            != "in_progress"@ by {
            assert(f[i] == a[i]);
        }
        assert(a[a.len() - 1].status != "in_progress"@);
        law_active_task(f, t, Seq::empty());
    }
    if t.status == "in_progress"@ {
        if b.len() == 0 {
            assert(all.drop_last() =~= a);
            assert(all.last() == t);
        } else {
            assert(all.drop_last() =~= a + seq![t] + b.drop_last());
            law_active_task(a, t, b.drop_last());
        }
    }
}

/// The task list is shown as what is done of how many, with the task that is
/// in progress; without tasks nothing is shown.
pub proof fn law_tasks_are_shown(items: Seq<ItemView>)
    ensures
        ({
            let s = status::todo_part(items);
            let done = todo::count_of(items, "completed"@);
            &&& items.len() == 0 ==> s.len() == 0
            &&& items.len() > 0 ==> text::begins_with(
                s,
                "☐ "@ + text::decimal(done) + "/"@ + text::decimal(items.len()),
            )
            &&& items.len() > 0 ==> (status::active_task(items) matches Some(t)
                ==> text::contains_text(s, t))
        }),
{
    let s = status::todo_part(items);
    let head = "☐ "@ + text::decimal(todo::count_of(items, "completed"@)) + "/"@ + text::decimal(
        items.len(),
    );
    if items.len() > 0 {
        assert(s.subrange(0, head.len() as int) =~= head);
        if status::active_task(items) is Some {
            let t = status::active_task(items)->0;
            let n = (head + " · ✍ "@).len() as int;
            assert(s.subrange(n, n + t.len()) =~= t);
            assert(text::occurs_at(s, t, n));
        }
    }
}

/// A run is shown with the whole seconds since it started; without a run
/// nothing is shown.
pub proof fn law_seconds_are_shown(a: AppView, started: u64, seconds: u64, rest: u64)
    requires
        rest < 1000,
        started + seconds * 1000 + rest <= u64::MAX,
    ensures
        status::elapsed(Some(started), (started + seconds * 1000 + rest) as u64) == seconds,
        status::elapsed(None, started) == 0,
        !a.streaming ==> status::accent(a, started).len() == 0,
        a.streaming && a.run_started_at == Some(started) ==> text::finishes_with(
            status::accent(a, (started + seconds * 1000 + rest) as u64),
            text::decimal(seconds as nat) + seq!['s', ' '],
        ),
{
    reveal_strlit("s ");
    assert("s "@ =~= seq!['s', ' ']);
    let now = (started + seconds * 1000 + rest) as u64;
    if a.streaming && a.run_started_at == Some(started) {
        let s = status::accent(a, now);
        let end = text::decimal(seconds as nat) + seq!['s', ' '];
        assert(s.subrange(s.len() - end.len(), s.len() as int) =~= end);
    }
}

/// The hints on the keys fit what they do: with a question open those for its
/// options, during a run how to cancel it, and else how to send, with the way
/// back down where the chat is scrolled.
pub proof fn law_hints_fit_the_state(a: AppView)
    ensures
        ({
            let s = status::key_hints(a);
            let asked = exists|i: int|
                0 <= i < a.messages.len() && is_open_question(#[trigger] a.messages[i]);
            &&& asked ==> text::contains_text(s, "Enter select"@)
            &&& !asked && a.streaming ==> text::begins_with(s, "Esc cancel"@)
            &&& !asked && !a.streaming && a.scroll_offset > 0 ==> text::begins_with(
                s,
                "↑"@ + text::decimal(a.scroll_offset as nat),
            )
            &&& !asked && !a.streaming && a.scroll_offset == 0 ==> text::contains_text(
                s,
                "Enter send"@,
            )
        }),
{
    intervene::lemma_last_pending(a.messages);
    let k = intervene::last_pending(a.messages);
    if k >= 0 {
        assert(is_open_question(a.messages[k]));
    }
    reveal_strlit(" ↑↓ nav · Enter select · Esc cancel  ");
    reveal_strlit("Enter select");
    reveal_strlit("Esc cancel · Enter inject");
    reveal_strlit("Esc cancel");
    reveal_strlit(" Enter send · ↑ hist · / cmds · ? help  ");
    reveal_strlit("Enter send");
    let s = status::key_hints(a);
    let asked = exists|i: int|
        0 <= i < a.messages.len() && is_open_question(#[trigger] a.messages[i]);
    if asked {
        let i = choose|i: int|
            0 <= i < a.messages.len() && is_open_question(#[trigger] a.messages[i]);
        assert(intervene::is_pending(a.messages[i]));
        assert(s.subrange(10, 22) =~= "Enter select"@);
        assert(text::occurs_at(s, "Enter select"@, 10));
    } else if a.streaming {
        assert(s.subrange(0, 10) =~= "Esc cancel"@);
    } else if a.scroll_offset > 0 {
        let head = "↑"@ + text::decimal(a.scroll_offset as nat);
        assert(s.subrange(0, head.len() as int) =~= head);
    } else {
        assert(s.subrange(1, 11) =~= "Enter send"@);
        assert(text::occurs_at(s, "Enter send"@, 1));
    }
}

// ── The trace ───────────────────────────────────────────────────────────

/// A duration is shown in milliseconds below a second, and else in seconds;
/// tokens exactly below a thousand, and else in thousands or millions.
pub proof fn law_trace_figures(ms: u64, count: u32, scaled: Seq<char>)
    ensures
        ms < 1000 ==> debug::duration_text(ms, scaled) == text::decimal(ms as nat) + seq!['m', 's'],
        ms >= 1000 ==> debug::duration_text(ms, scaled) == scaled + seq!['s'],
        count == 0 ==> debug::tokens_text(count, scaled) == seq!['-'],
        0 < count < 1000 ==> debug::tokens_text(count, scaled) == text::decimal(count as nat),
        1000 <= count < 1000 * 1000 ==> debug::tokens_text(count, scaled) == scaled + seq!['K'],
        count >= 1000 * 1000 ==> debug::tokens_text(count, scaled) == scaled + seq!['M'],
{
    reveal_strlit("ms");
    reveal_strlit("s");
    reveal_strlit("-");
    reveal_strlit("K");
    reveal_strlit("M");
    assert("ms"@ =~= seq!['m', 's']);
    assert("s"@ =~= seq!['s']);
    assert("-"@ =~= seq!['-']);
    assert("K"@ =~= seq!['K']);
    assert("M"@ =~= seq!['M']);
}

/// Of the events the last are kept, as many as fit, in their order.
pub proof fn law_last_events(s: Seq<TraceEvent>, e: TraceEvent, n: nat)
    ensures
        s.len() <= n ==> debug::last_of(s, n) == s,
        s.len() >= n ==> debug::last_of(s, n).len() == n,
        debug::last_of(s.push(e), n + 1) == debug::last_of(s, n).push(e),
{
    assert(debug::last_of(s.push(e), n + 1) =~= debug::last_of(s, n).push(e));
}

/// The panel shows and hides; it scrolls up and down by as many events as
/// asked, and not below the last one.
pub proof fn law_panel_scrolls(o: OverlayView, n: nat)
    requires
        o.scroll_offset + n <= usize::MAX,
    ensures
        o.toggled() == (OverlayView { visible: !o.visible, ..o }),
        o.scrolled_up(n).scroll_offset == o.scroll_offset + n,
        o.scrolled_up(n).events == o.events && o.scrolled_down(n).events == o.events,
        o.scroll_offset >= n ==> o.scrolled_down(n).scroll_offset == o.scroll_offset - n,
        o.scroll_offset < n ==> o.scrolled_down(n).scroll_offset == 0,
{
}

/// The window on the events ends as far above the last one as it is scrolled,
/// and shows as many as there are rows, or as there are.
pub proof fn law_window_on_the_events(total: nat, offset: nat, rows: nat)
    requires
        offset < total,
    ensures
        debug::window(total, offset, rows).1 == total - offset,
        offset + rows <= total ==> debug::window(total, offset, rows).1 - debug::window(
            total,
            offset,
            rows,
        ).0 == rows,
        offset + rows > total ==> debug::window(total, offset, rows).0 == 0,
{
}

/// After new events the panel stays scrolled as it was, as far as there are
/// events.
pub proof fn law_scrolling_is_kept(offset: usize, n: nat)
    ensures
        offset < n ==> debug::clamped(offset, n) == offset,
        0 < n <= offset ==> debug::clamped(offset, n) == n - 1,
        n == 0 ==> debug::clamped(offset, n) == 0,
{
}

/// A call is shown under its name, as it went: done, failed, or refused with
/// the reason.
pub proof fn law_calls_are_traced(e: TraceEvent, f: Figures)
    ensures
        ({
            let line = debug::trace_line(e, f);
            &&& e matches TraceEvent::ToolCallFinished { tool_name, success, .. } ==> line.len()
                == 2 && text::contains_text(line[0].content, tool_name@) && text::begins_with(
                line[0].content,
                if success {
                    " ✓ "@
                } else {
                    " ✗ "@
                },
            )
            &&& e matches TraceEvent::ToolCallRejected { tool_name, reason, .. } ==> line.len() == 2
                && text::contains_text(line[0].content, tool_name@) && line[1].content == reason@
            &&& e matches TraceEvent::ToolCallStarted { tool_name, .. } ==> line.len() == 1
                && text::contains_text(line[0].content, tool_name@)
        }),
{
    let line = debug::trace_line(e, f);
    reveal_strlit(" ✓ ");
    reveal_strlit(" ✗ ");
    reveal_strlit(" ⊘ ");
    reveal_strlit(" ◌ ");
    match e {
        TraceEvent::ToolCallFinished { tool_name, success, .. } => {
            let s = line[0].content;
            let mark = if success {
                " ✓ "@
            } else {
                " ✗ "@
            };
            assert(s.subrange(0, 3) =~= mark);
            assert(s.subrange(3, 3int + tool_name@.len()) =~= tool_name@);
            assert(text::occurs_at(s, tool_name@, 3));
        },
        TraceEvent::ToolCallRejected { tool_name, .. } => {
            let s = line[0].content;
            assert(s.subrange(3, 3int + tool_name@.len()) =~= tool_name@);
            assert(text::occurs_at(s, tool_name@, 3));
        },
        TraceEvent::ToolCallStarted { tool_name, .. } => {
            let s = line[0].content;
            assert(s.subrange(3, 3int + tool_name@.len()) =~= tool_name@);
            assert(text::occurs_at(s, tool_name@, 3));
        },
        _ => {},
    }
}

// ── Figures of a run ────────────────────────────────────────────────────

/// The tokens of a run are those of its calls together.
pub proof fn law_tokens_are_summed(h: Seq<Usage>, u: Usage)
    ensures
        ({
            let t = observability_hook::total_usage(h);
            let n = observability_hook::total_usage(h.push(u));
            let z = observability_hook::total_usage(Seq::empty());
            &&& z.prompt_tokens == 0 && z.completion_tokens == 0 && z.total_tokens == 0
            &&& t.prompt_tokens + u.prompt_tokens <= u32::MAX ==> n.prompt_tokens == t.prompt_tokens
                + u.prompt_tokens
            &&& t.completion_tokens + u.completion_tokens <= u32::MAX ==> n.completion_tokens
                == t.completion_tokens + u.completion_tokens
            &&& t.total_tokens + u.total_tokens <= u32::MAX ==> n.total_tokens == t.total_tokens
                + u.total_tokens
            &&& observability_hook::run_usage(h.push(u), None) == n
            &&& observability_hook::run_usage(Seq::empty(), Some(u)) == u
        }),
{
    assert(h.push(u).drop_last() =~= h);
}

/// An answer of the model counts as one call with its tokens, a failure as one
/// call and one error, and as a retry where there is one; a call of a tool
/// that ended counts once, and as an error where it failed.
pub proof fn law_calls_are_counted(h: HookView, u: Usage, id: Seq<char>, yes: bool)
    requires
        h.llm_call_count < usize::MAX,
        h.llm_error_count < usize::MAX,
        h.tool_call_count < usize::MAX,
        h.metrics.llm_calls < usize::MAX,
        h.metrics.llm_retries < usize::MAX,
        h.metrics.tool_calls < usize::MAX,
        h.metrics.tool_errors < usize::MAX,
        h.metrics.total_tokens + u.total_tokens <= u64::MAX,
    ensures
        ({
            let a = observability_hook::answered(h, u);
            let b = observability_hook::llm_failed(h, yes);
            let c = observability_hook::call_ended(h, id, yes);
            &&& a.llm_call_count == h.llm_call_count + 1 && a.llm_error_count == h.llm_error_count
            &&& a.metrics.llm_calls == h.metrics.llm_calls + 1
            &&& a.metrics.total_tokens == h.metrics.total_tokens + u.total_tokens
            &&& b.llm_call_count == h.llm_call_count + 1 && b.llm_error_count == h.llm_error_count
                + 1
            &&& b.metrics.llm_calls == h.metrics.llm_calls + 1
            &&& b.metrics.llm_retries == h.metrics.llm_retries + (if yes {
                1int
            } else {
                0
            })
            &&& b.metrics.total_tokens == h.metrics.total_tokens
            &&& c.tool_call_count == h.tool_call_count + 1
            &&& c.metrics.tool_calls == h.metrics.tool_calls + 1
            &&& c.metrics.tool_errors == h.metrics.tool_errors + (if yes {
                0int
            } else {
                1
            })
            &&& c.metrics.llm_calls == h.metrics.llm_calls
        }),
{
}

/// A run starts with nothing counted, and is under way from then on.
pub proof fn law_runs_start_counting(h: HookView, now: u64)
    ensures
        ({
            let s = observability_hook::started(h, now);
            &&& s.run_start == Some(now)
            &&& s.current_step == 0 && s.llm_call_count == 0 && s.tool_call_count == 0
                && s.llm_error_count == 0 && s.tool_starts.len() == 0
            &&& s.metrics == (Metrics {
                steps: 0,
                llm_calls: 0,
                llm_retries: 0,
                tool_calls: 0,
                tool_errors: 0,
                total_tokens: 0,
                is_streaming: true,
                run_started: true,
            })
        }),
{
}

/// What came of a run is named, an error with what it says; an answer that
/// calls tools is named so.
pub proof fn law_outcomes_are_named(o: RunOutcome, r: RecordView)
    ensures
        o is Success ==> observability_hook::outcome_text(o) == "success"@,
        o is Cancelled ==> observability_hook::outcome_text(o) == "cancelled"@,
        o matches RunOutcome::Error { error } ==> text::finishes_with(
            observability_hook::outcome_text(o),
            error@,
        ),
        r.tool_calls is Some && r.tool_calls->0.len() > 0 ==> observability_hook::finish_reason(r)
            == "tool_calls"@,
        r.tool_calls is None || r.tool_calls->0.len() == 0 ==> observability_hook::finish_reason(r)
            == "stop"@,
{
    match o {
        RunOutcome::Error { error } => {
            let s = "error: "@ + error@;
            assert(s.subrange(s.len() - error@.len(), s.len() as int) =~= error@);
        },
        _ => {},
    }
}

/// A text that is cut to a number of bytes keeps its front and ends in three
/// dots; one that is short enough stays whole.
pub proof fn law_cut_to_bytes(s: Seq<char>, max: nat)
    ensures
        ({
            let t = messages::cut_to_bytes(s, max);
            &&& text::byte_len(s) <= max ==> t == s
            &&& text::byte_len(s) > max ==> t.len() >= 3 && t.skip(t.len() - 3) == seq!['.', '.', '.']
                && t.len() - 3 <= s.len() && t.take(t.len() - 3) == s.take(t.len() - 3)
                && text::byte_len(t.take(t.len() - 3)) <= max
        }),
{
    reveal_strlit("...");
    assert("..."@ =~= seq!['.', '.', '.']);
    text_laws::law_cutting(s, max);
    let t = messages::cut_to_bytes(s, max);
    if text::byte_len(s) > max {
        let k = text::floor_index(s, max);
        assert(t.skip(t.len() - 3) =~= "..."@);
        assert(t.take(t.len() - 3) =~= s.take(k));
    }
}

/// The status line begins with the badge of plan mode where that is on, and
/// names the model and the number of messages.
pub proof fn law_status_names_the_model(a: AppView, f: status::StatusFacts)
    requires
        display_width(a.model) <= 20,
    ensures
        ({
            let v = status::left_spans(a, f);
            let s = v.last().content;
            let end = a.model + " | "@ + text::decimal(a.messages.len()) + " msgs "@;
            &&& a.plan_active ==> v.len() == 4 && v[1].content == " PLAN "@
            &&& !a.plan_active ==> v.len() == 2
            &&& text::finishes_with(s, end)
        }),
{
    let v = status::left_spans(a, f);
    let s = v.last().content;
    let end = a.model + " | "@ + text::decimal(a.messages.len()) + " msgs "@;
    assert(s.subrange(s.len() - end.len(), s.len() as int) =~= end);
}

/// A row of a wrapped line is filled piece by piece: a piece that does not fit
/// behind the others begins the next row, and the row before it is whole.
pub proof fn law_pieces_fill_their_row(line: Seq<SpanView>, s: SpanView, max: nat)
    requires
        wrap::line_width(line) <= max,
        display_width(s.content) <= max,
        wrap::line_width(line) + display_width(s.content) > max,
        wrap::line_text(line).len() > 0,
    ensures
        wrap::wrapped(seq![line.push(s)], max) == seq![line, seq![s]],
{
    let all = line.push(s);
    let no_rows = Seq::<Seq<SpanView>>::empty();
    assert(all.drop_last() =~= line);
    lemma_row_grows(line, max);
    let w = wrap::wrap_spans(all, max);
    assert(w == wrap::wrap_span(wrap::wrap_spans(line, max), s, max));
    assert(w.rows =~= seq![line]);
    assert(w.rows.push(w.current) =~= seq![line, seq![s]]);
    assert(seq![all].drop_last() =~= no_rows);
    assert(wrap::wrapped(no_rows, max) =~= no_rows);
    assert(wrap::wrapped(seq![all], max) =~= seq![line, seq![s]]);
}

proof fn lemma_row_grows(line: Seq<SpanView>, max: nat)
    requires
        wrap::line_width(line) <= max,
    ensures
        ({
            let w = wrap::wrap_spans(line, max);
            w.rows.len() == 0 && w.current == line && w.current_width == wrap::line_width(line)
        }),
    decreases line.len(),
{
    if line.len() > 0 {
        let f = line.drop_last();
        lemma_row_grows(f, max);
        assert(f.push(line.last()) =~= line);
    }
}

} // verus!
