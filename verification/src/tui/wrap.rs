//! Wrapping styled lines to the width of the chat, and counting rows.

use vstd::prelude::*;
use crate::text;
use crate::tui::messages::{CallOrigin, ChatMessage, MessageView, ToolCallState, ToolCallStateView};
use crate::tui::span::{self, line1, push_line, styled, Line, Span, SpanView};
use crate::tui::theme::Style;
use crate::tui::ui;
use crate::tui::welcome;
use crate::tui::width;

verus! {

// ── Wrapping ────────────────────────────────────────────────────────────

/// The columns of the spans of a line.
pub open spec fn line_width(spans: Seq<SpanView>) -> nat
    decreases spans.len(),
{
    if spans.len() == 0 {
        0
    } else {
        line_width(spans.drop_last()) + width::display_width(spans.last().content)
    }
}

/// The rows of a span that is split at the width of the display.
pub open spec fn split_rows(content: Seq<char>, style: Style, max: nat) -> Seq<Seq<SpanView>>
    decreases content.len(),
{
    if content.len() == 0 {
        Seq::empty()
    } else {
        proof {
            width::lemma_fit_count(content, max);
        }
        let k = width::split_count(content, max);
        seq![seq![span::styled_view(content.take(k), style)]] + split_rows(
            content.skip(k),
            style,
            max,
        )
    }
}

/// The text of the spans of a line.
pub open spec fn line_text(spans: Seq<SpanView>) -> Seq<char>
    decreases spans.len(),
{
    if spans.len() == 0 {
        Seq::empty()
    } else {
        line_text(spans.drop_last()) + spans.last().content
    }
}

/// The text of lines, one after the other.
pub open spec fn lines_text(lines: Seq<Seq<SpanView>>) -> Seq<char>
    decreases lines.len(),
{
    if lines.len() == 0 {
        Seq::empty()
    } else {
        lines_text(lines.drop_last()) + line_text(lines.last())
    }
}

/// A line that is being wrapped: the finished rows, and the spans of the row
/// that is being filled.
pub struct Wrapping {
    pub rows: Seq<Seq<SpanView>>,
    pub current: Seq<SpanView>,
    pub current_width: nat,
}

/// One span more: it goes on the current row where it fits, else on a row of
/// its own, or on several where it is wider than the display.
pub open spec fn wrap_span(w: Wrapping, s: SpanView, max: nat) -> Wrapping {
    let n = width::display_width(s.content);
    if w.current_width + n <= max {
        Wrapping {
            rows: w.rows,
            current: w.current.push(s),
            current_width: w.current_width + n,
        }
    } else {
        let rows = if line_text(w.current).len() == 0 {
            w.rows
        } else {
            w.rows.push(w.current)
        };
        if n <= max {
            Wrapping { rows, current: seq![s], current_width: n }
        } else {
            Wrapping {
                rows: rows + split_rows(s.content, s.style, max),
                current: Seq::empty(),
                current_width: 0,
            }
        }
    }
}

/// The spans of a line, one after the other.
pub open spec fn wrap_spans(spans: Seq<SpanView>, max: nat) -> Wrapping
    decreases spans.len(),
{
    if spans.len() == 0 {
        Wrapping { rows: Seq::empty(), current: Seq::empty(), current_width: 0 }
    } else {
        wrap_span(wrap_spans(spans.drop_last(), max), spans.last(), max)
    }
}

/// The rows of one line on a display of `max` columns.
pub open spec fn wrapped_line(spans: Seq<SpanView>, max: nat) -> Seq<Seq<SpanView>> {
    if line_width(spans) <= max {
        seq![spans]
    } else {
        let w = wrap_spans(spans, max);
        if w.current.len() == 0 {
            w.rows
        } else {
            w.rows.push(w.current)
        }
    }
}

/// The rows of all lines.
pub open spec fn wrapped(lines: Seq<Seq<SpanView>>, max: nat) -> Seq<Seq<SpanView>>
    decreases lines.len(),
{
    if lines.len() == 0 {
        Seq::empty()
    } else {
        wrapped(lines.drop_last(), max) + wrapped_line(lines.last(), max)
    }
}

/// A display has one column at least.
pub open spec fn display_cols(width: int) -> nat {
    if width > 1 {
        width as nat
    } else {
        1
    }
}

fn copy_span(s: &Span) -> (r: Span)
    ensures
        r@ == s@,
{
    Span { content: s.content.clone(), style: s.style }
}

proof fn lemma_line_width_mono(spans: Seq<SpanView>, i: int)
    requires
        0 <= i <= spans.len(),
    ensures
        line_width(spans.take(i)) <= line_width(spans),
    decreases spans.len() - i,
{
    if i == spans.len() {
        assert(spans.take(i) =~= spans);
    } else {
        lemma_line_width_mono(spans, i + 1);
        assert(spans.take(i + 1).drop_last() =~= spans.take(i));
    }
}

fn fits(line: &Line, max: usize) -> (r: bool)
    ensures
        r == (line_width(line@) <= max),
{
    let mut left: usize = max;
    let mut i: usize = 0;
    assert(line@.take(0) =~= Seq::<SpanView>::empty());
    while i < line.spans.len()
        invariant
            i <= line.spans@.len(),
            left + line_width(line@.take(i as int)) == max,
        decreases line.spans@.len() - i,
    {
        let w: usize = width::str_width(line.spans[i].content.as_str());
        assert(line@.take(i + 1).drop_last() =~= line@.take(i as int));
        assert(line@.take(i + 1).last() == line.spans@[i as int]@);
        if w > left {
            proof {
                lemma_line_width_mono(line@, i + 1);
            }
            return false;
        }
        left = left - w;
        i = i + 1;
    }
    assert(line@.take(i as int) =~= line@);
    true
}

fn has_text(line: &Line) -> (r: bool)
    ensures
        r == (line_text(line@).len() > 0),
{
    let mut i: usize = 0;
    assert(line@.take(0) =~= Seq::<SpanView>::empty());
    while i < line.spans.len()
        invariant
            i <= line.spans@.len(),
            line_text(line@.take(i as int)).len() == 0,
        decreases line.spans@.len() - i,
    {
        assert(line@.take(i + 1).drop_last() =~= line@.take(i as int));
        assert(line@.take(i + 1).last() == line.spans@[i as int]@);
        if !line.spans[i].content.as_str().is_empty() {
            proof {
                lemma_line_text_grows(line@, i + 1);
            }
            return true;
        }
        i = i + 1;
    }
    assert(line@.take(i as int) =~= line@);
    false
}

proof fn lemma_line_text_grows(spans: Seq<SpanView>, i: int)
    requires
        0 <= i <= spans.len(),
    ensures
        line_text(spans.take(i)).len() <= line_text(spans).len(),
    decreases spans.len() - i,
{
    if i == spans.len() {
        assert(spans.take(i) =~= spans);
    } else {
        lemma_line_text_grows(spans, i + 1);
        assert(spans.take(i + 1).drop_last() =~= spans.take(i));
    }
}

fn push_split(out: &mut Vec<Line>, s: &Span, max: usize)
    ensures
        span::lines_view(final(out)@) == span::lines_view(old(out)@) + split_rows(
            s.content@,
            s.style,
            max as nat,
        ),
{
    let cs = text::chars_of(s.content.as_str());
    let mut i: usize = 0;
    let ghost before = span::lines_view(out@);
    let ghost all = split_rows(cs@, s.style, max as nat);
    assert(cs@.skip(0) =~= cs@);
    assert(before + all =~= span::lines_view(out@) + all);
    while i < cs.len()
        invariant
            i <= cs@.len(),
            before + all == span::lines_view(out@) + split_rows(
                cs@.skip(i as int),
                s.style,
                max as nat,
            ),
        decreases cs@.len() - i,
    {
        let ghost rest = cs@.skip(i as int);
        let k: usize = width::split_chars(&cs, i, cs.len(), max);
        proof {
            assert(cs@.subrange(i as int, cs@.len() as int) =~= rest);
            assert(cs@.subrange(i as int, i + k) =~= rest.take(k as int));
            assert(rest.skip(k as int) =~= cs@.skip(i + k));
        }
        let ghost had = span::lines_view(out@);
        let chunk = text::string_of_range(&cs, i, i + k);
        push_line(out, line1(styled(chunk.as_str(), s.style)));
        i = i + k;
        assert(span::lines_view(out@) + split_rows(cs@.skip(i as int), s.style, max as nat) =~= had
            + split_rows(rest, s.style, max as nat));
    }
    assert(cs@.skip(i as int) =~= Seq::<char>::empty());
    assert(span::lines_view(out@) + Seq::<Seq<SpanView>>::empty() =~= span::lines_view(out@));
}

fn wrap_one(out: &mut Vec<Line>, line: &Line, max: usize)
    ensures
        span::lines_view(final(out)@) == span::lines_view(old(out)@) + wrapped_line(
            line@,
            max as nat,
        ),
{
    let ghost before = span::lines_view(out@);
    if fits(line, max) {
        let mut copy = Line::new();
        let mut i: usize = 0;
        assert(line@.take(0) =~= Seq::<SpanView>::empty());
        while i < line.spans.len()
            invariant
                i <= line.spans@.len(),
                copy@ == line@.take(i as int),
            decreases line.spans@.len() - i,
        {
            copy.push(copy_span(&line.spans[i]));
            assert(line@.take(i + 1) =~= line@.take(i as int).push(line@[i as int]));
            i = i + 1;
        }
        assert(line@.take(i as int) =~= line@);
        push_line(out, copy);
        assert(span::lines_view(out@) =~= before + wrapped_line(line@, max as nat));
        return ;
    }
    let mut current = Line::new();
    let mut current_w: usize = 0;
    let mut i: usize = 0;
    assert(line@.take(0) =~= Seq::<SpanView>::empty());
    assert(before + Seq::<Seq<SpanView>>::empty() =~= before);
    while i < line.spans.len()
        invariant
            i <= line.spans@.len(),
            current_w <= max,
            current@ == wrap_spans(line@.take(i as int), max as nat).current,
            current_w == wrap_spans(line@.take(i as int), max as nat).current_width,
            span::lines_view(out@) == before + wrap_spans(line@.take(i as int), max as nat).rows,
        decreases line.spans@.len() - i,
    {
        let ghost w0 = wrap_spans(line@.take(i as int), max as nat);
        let w: usize = width::str_width(line.spans[i].content.as_str());
        assert(line@.take(i + 1).drop_last() =~= line@.take(i as int));
        assert(line@.take(i + 1).last() == line.spans@[i as int]@);
        let ghost w1 = wrap_span(w0, line.spans@[i as int]@, max as nat);
        assert(wrap_spans(line@.take(i + 1), max as nat) == w1);
        if w <= max - current_w {
            current.push(copy_span(&line.spans[i]));
            current_w = current_w + w;
        } else {
            if has_text(&current) {
                push_line(out, current);
            }
            current = Line::new();
            if w <= max {
                current.push(copy_span(&line.spans[i]));
                current_w = w;
                assert(span::lines_view(out@) =~= before + w1.rows);
            } else {
                push_split(out, &line.spans[i], max);
                current_w = 0;
                assert(span::lines_view(out@) =~= before + w1.rows);
            }
        }
        i = i + 1;
    }
    assert(line@.take(i as int) =~= line@);
    if current.spans.len() > 0 {
        push_line(out, current);
    }
    assert(span::lines_view(out@) =~= before + wrapped_line(line@, max as nat));
}

/// Wraps each line to `max_width` columns. A line that fits stays as it is;
/// the spans of a wider one are laid out row by row, each in its own style.
pub fn wrap_to_width(lines: Vec<Line>, max_width: u16) -> (r: Vec<Line>)
    ensures
        span::lines_view(r@) == wrapped(
            span::lines_view(lines@),
            display_cols(max_width as int),
        ),
        forall|i: int|
            0 <= i < r@.len() ==> row_fits(
                #[trigger] span::lines_view(r@)[i],
                display_cols(max_width as int),
            ),
        lines_text(span::lines_view(r@)) == lines_text(span::lines_view(lines@)),
{
    let max: usize = if max_width > 1 {
        max_width as usize
    } else {
        1
    };
    let ghost all = span::lines_view(lines@);
    let mut out: Vec<Line> = Vec::new();
    let mut i: usize = 0;
    assert(span::lines_view(out@) =~= wrapped(all.take(0), max as nat));
    while i < lines.len()
        invariant
            i <= lines@.len(),
            all == span::lines_view(lines@),
            span::lines_view(out@) == wrapped(all.take(i as int), max as nat),
        decreases lines@.len() - i,
    {
        assert(all.take(i + 1).drop_last() =~= all.take(i as int));
        assert(all.take(i + 1).last() == lines@[i as int]@);
        wrap_one(&mut out, &lines[i], max);
        i = i + 1;
    }
    assert(all.take(i as int) =~= all);
    proof {
        law_wrapping_keeps_the_text(all, max as nat);
        assert forall|i: int| 0 <= i < out@.len() implies row_fits(
            #[trigger] span::lines_view(out@)[i],
            max as nat,
        ) by {
            law_wrapped_rows_fit(all, max as nat, i);
        }
    }
    out
}

/// Whether a row keeps to `max` columns, or is a single character that does
/// not.
pub open spec fn row_fits(row: Seq<SpanView>, max: nat) -> bool {
    ||| line_width(row) <= max
    ||| row.len() == 1 && row[0].content.len() == 1
}

proof fn lemma_split_rows_fit(content: Seq<char>, style: Style, max: nat)
    ensures
        forall|i: int|
            0 <= i < split_rows(content, style, max).len() ==> row_fits(
                #[trigger] split_rows(content, style, max)[i],
                max,
            ),
    decreases content.len(),
{
    if content.len() > 0 {
        width::lemma_fit_count(content, max);
        let k = width::split_count(content, max);
        lemma_split_rows_fit(content.skip(k), style, max);
        let rest = split_rows(content.skip(k), style, max);
        let all = split_rows(content, style, max);
        assert forall|i: int| 0 <= i < all.len() implies row_fits(#[trigger] all[i], max) by {
            if i > 0 {
                assert(all[i] == rest[i - 1]);
            } else {
                reveal_with_fuel(line_width, 2);
                assert(all[0].drop_last() =~= Seq::<SpanView>::empty());
            }
        }
    }
}

proof fn lemma_wrap_spans_fit(spans: Seq<SpanView>, max: nat)
    ensures
        ({
            let w = wrap_spans(spans, max);
            &&& forall|i: int| 0 <= i < w.rows.len() ==> row_fits(#[trigger] w.rows[i], max)
            &&& line_width(w.current) == w.current_width
            &&& w.current_width <= max
        }),
    decreases spans.len(),
{
    reveal_with_fuel(line_width, 2);
    if spans.len() > 0 {
        lemma_wrap_spans_fit(spans.drop_last(), max);
        let w0 = wrap_spans(spans.drop_last(), max);
        let s = spans.last();
        let w = wrap_spans(spans, max);
        lemma_split_rows_fit(s.content, s.style, max);
        assert(w0.current.push(s).drop_last() =~= w0.current);
        assert(seq![s].drop_last() =~= Seq::<SpanView>::empty());
        assert forall|i: int| 0 <= i < w.rows.len() implies row_fits(#[trigger] w.rows[i], max) by {
            if i < w0.rows.len() {
                assert(w.rows[i] == w0.rows[i]);
            }
        }
    }
}

/// Every row that wrapping makes keeps to the width of the display.
pub proof fn law_wrapped_rows_fit(lines: Seq<Seq<SpanView>>, max: nat, i: int)
    requires
        0 <= i < wrapped(lines, max).len(),
    ensures
        row_fits(wrapped(lines, max)[i], max),
    decreases lines.len(),
{
    if lines.len() > 0 {
        let head = wrapped(lines.drop_last(), max);
        if i < head.len() {
            law_wrapped_rows_fit(lines.drop_last(), max, i);
        } else {
            lemma_wrap_spans_fit(lines.last(), max);
            let w = wrap_spans(lines.last(), max);
            let j = i - head.len();
            assert(wrapped(lines, max)[i] == wrapped_line(lines.last(), max)[j]);
            if line_width(lines.last()) > max && j < w.rows.len() {
                assert(wrapped_line(lines.last(), max)[j] == w.rows[j]);
            }
        }
    }
}

proof fn lemma_lines_text_add(a: Seq<Seq<SpanView>>, b: Seq<Seq<SpanView>>)
    ensures
        lines_text(a + b) == lines_text(a) + lines_text(b),
    decreases b.len(),
{
    if b.len() == 0 {
        assert(a + b =~= a);
        assert(lines_text(a) + lines_text(b) =~= lines_text(a));
    } else {
        assert((a + b).drop_last() =~= a + b.drop_last());
        lemma_lines_text_add(a, b.drop_last());
        assert(lines_text(a + b) =~= lines_text(a) + lines_text(b));
    }
}

proof fn lemma_one_row_text(row: Seq<SpanView>)
    ensures
        lines_text(seq![row]) == line_text(row),
{
    reveal_with_fuel(lines_text, 2);
    assert(seq![row].drop_last() =~= Seq::<Seq<SpanView>>::empty());
    assert(Seq::<char>::empty() + line_text(row) =~= line_text(row));
}

proof fn lemma_one_span_text(s: SpanView)
    ensures
        line_text(seq![s]) == s.content,
{
    reveal_with_fuel(line_text, 2);
    assert(seq![s].drop_last() =~= Seq::<SpanView>::empty());
    assert(Seq::<char>::empty() + s.content =~= s.content);
}

proof fn lemma_split_rows_text(content: Seq<char>, style: Style, max: nat)
    ensures
        lines_text(split_rows(content, style, max)) == content,
    decreases content.len(),
{
    if content.len() == 0 {
        assert(lines_text(split_rows(content, style, max)) =~= content);
    } else {
        width::lemma_fit_count(content, max);
        let k = width::split_count(content, max);
        let first = seq![span::styled_view(content.take(k), style)];
        lemma_split_rows_text(content.skip(k), style, max);
        lemma_lines_text_add(seq![first], split_rows(content.skip(k), style, max));
        lemma_one_row_text(first);
        lemma_one_span_text(span::styled_view(content.take(k), style));
        assert(content.take(k) + content.skip(k) =~= content);
    }
}

proof fn lemma_push_row_text(rows: Seq<Seq<SpanView>>, row: Seq<SpanView>)
    ensures
        lines_text(rows.push(row)) == lines_text(rows) + line_text(row),
{
    assert(rows.push(row).drop_last() =~= rows);
}

proof fn lemma_wrap_spans_text(spans: Seq<SpanView>, max: nat)
    ensures
        ({
            let w = wrap_spans(spans, max);
            lines_text(w.rows) + line_text(w.current) == line_text(spans)
        }),
    decreases spans.len(),
{
    let w = wrap_spans(spans, max);
    if spans.len() == 0 {
        assert(lines_text(w.rows) + line_text(w.current) =~= line_text(spans));
    } else {
        lemma_wrap_spans_text(spans.drop_last(), max);
        let w0 = wrap_spans(spans.drop_last(), max);
        let s = spans.last();
        assert(w0.current.push(s).drop_last() =~= w0.current);
        lemma_push_row_text(w0.rows, w0.current);
        lemma_one_span_text(s);
        lemma_split_rows_text(s.content, s.style, max);
        let flushed = if line_text(w0.current).len() == 0 {
            w0.rows
        } else {
            w0.rows.push(w0.current)
        };
        assert(lines_text(flushed) =~= lines_text(w0.rows) + line_text(w0.current));
        lemma_lines_text_add(flushed, split_rows(s.content, s.style, max));
        assert(lines_text(w.rows) + line_text(w.current) =~= line_text(spans));
    }
}

/// Wrapping loses nothing and moves nothing: the rows read as the lines do.
pub proof fn law_wrapping_keeps_the_text(lines: Seq<Seq<SpanView>>, max: nat)
    ensures
        lines_text(wrapped(lines, max)) == lines_text(lines),
    decreases lines.len(),
{
    if lines.len() > 0 {
        let line = lines.last();
        law_wrapping_keeps_the_text(lines.drop_last(), max);
        lemma_lines_text_add(wrapped(lines.drop_last(), max), wrapped_line(line, max));
        lemma_one_row_text(line);
        lemma_wrap_spans_text(line, max);
        let w = wrap_spans(line, max);
        lemma_push_row_text(w.rows, w.current);
        if w.current.len() == 0 {
            assert(lines_text(w.rows) + line_text(w.current) =~= lines_text(w.rows));
        }
    }
}

/// Lines that fit are left alone.
pub proof fn law_wrapping_keeps_fitting_lines(lines: Seq<Seq<SpanView>>, max: nat)
    requires
        forall|i: int| 0 <= i < lines.len() ==> line_width(#[trigger] lines[i]) <= max,
    ensures
        wrapped(lines, max) == lines,
    decreases lines.len(),
{
    if lines.len() > 0 {
        assert forall|i: int| 0 <= i < lines.drop_last().len() implies line_width(
            #[trigger] lines.drop_last()[i],
        ) <= max by {
            assert(lines.drop_last()[i] == lines[i]);
        }
        law_wrapping_keeps_fitting_lines(lines.drop_last(), max);
    }
    assert(wrapped(lines, max) =~= lines);
}

// ── Row estimate ────────────────────────────────────────────────────────

/// The text by which the rows of a message are estimated.
pub open spec fn estimate_text(msg: MessageView) -> Seq<char> {
    match msg {
        MessageView::User { content, .. } => "> "@ + content,
        MessageView::Assistant { content, .. } => content,
        MessageView::Reasoning { content, .. } => content,
        MessageView::ToolCall { name, args, state, origin, .. } => {
            match state {
                ToolCallStateView::Running => if origin == CallOrigin::User {
                    "$ "@ + args + "\nRunning…"@
                } else {
                    "  🔧 "@ + name + " "@ + args
                },
                ToolCallStateView::Complete(output) => if origin == CallOrigin::User {
                    "$ "@ + args + "\n"@ + output
                } else {
                    "  ✓ "@ + name + " → "@ + output
                },
                ToolCallStateView::Rejected(reason) => "  ⊘ "@ + name + " → "@ + reason,
                ToolCallStateView::Error(error) => "  ✗ "@ + name + " → "@ + error,
            }
        },
        MessageView::System { content, .. } => "  ℹ "@ + content,
        MessageView::Welcome { .. } => Seq::empty(),
        MessageView::Intervene {
            title,
            description,
            options,
            responded,
            chosen,
            custom_text,
            ..
        } => if responded {
            "  ✓ "@ + title + " → "@ + ui::answer_summary(options, chosen, custom_text)
        } else {
            "  ⚡ "@ + title + "\n"@ + description + "\n  ["@ + text::joined(options, " / "@) + "]"@
        },
        MessageView::Error { content, .. } => content,
    }
}

/// The text by which the rows of `msg` are estimated.
pub fn estimate_text_of(msg: &ChatMessage) -> (r: String)
    ensures
        r@ == estimate_text(msg@),
{
    match msg {
        ChatMessage::User { content, .. } => text::cat2("> ", content.as_str()),
        ChatMessage::Assistant { content, .. } => content.clone(),
        ChatMessage::Reasoning { content, .. } => content.clone(),
        ChatMessage::ToolCall { name, args, state, origin, .. } => {
            match state {
                ToolCallState::Running => {
                    if *origin == CallOrigin::User {
                        text::cat3("$ ", args.as_str(), "\nRunning…")
                    } else {
                        text::cat4("  🔧 ", name.as_str(), " ", args.as_str())
                    }
                },
                ToolCallState::Complete(output) => {
                    if *origin == CallOrigin::User {
                        text::cat4("$ ", args.as_str(), "\n", output.as_str())
                    } else {
                        text::cat4("  ✓ ", name.as_str(), " → ", output.as_str())
                    }
                },
                ToolCallState::Rejected(reason) => {
                    text::cat4("  ⊘ ", name.as_str(), " → ", reason.as_str())
                },
                ToolCallState::Error(error) => {
                    text::cat4("  ✗ ", name.as_str(), " → ", error.as_str())
                },
            }
        },
        ChatMessage::System { content, .. } => text::cat2("  ℹ ", content.as_str()),
        ChatMessage::Welcome { .. } => String::new(),
        ChatMessage::Intervene {
            title,
            description,
            options,
            responded,
            chosen,
            custom_text,
            ..
        } => {
            if *responded {
                let summary = ui::answer_summary_of(options, *chosen, custom_text);
                text::cat4("  ✓ ", title.as_str(), " → ", summary.as_str())
            } else {
                let opts = text::join(options, " / ");
                text::cat7(
                    "  ⚡ ",
                    title.as_str(),
                    "\n",
                    description.as_str(),
                    "\n  [",
                    opts.as_str(),
                    "]",
                )
            }
        },
        ChatMessage::Error { content, .. } => content.clone(),
    }
}

/// The rows that one line of text takes on a display of `w` columns.
pub open spec fn rows_of_line(line: Seq<char>, w: nat) -> nat {
    let n = width::display_width(line);
    if line.len() == 0 || n == 0 {
        1
    } else {
        (n + w - 1) as nat / w
    }
}

/// The rows that the lines of a text take together.
pub open spec fn rows_of_lines(lines: Seq<Seq<char>>, w: nat) -> nat
    decreases lines.len(),
{
    if lines.len() == 0 {
        0
    } else {
        rows_of_lines(lines.drop_last(), w) + rows_of_line(lines.last(), w)
    }
}

/// The estimated rows of a message, one at least; exact for the banner.
pub open spec fn estimated_rows(msg: MessageView, width: int) -> nat {
    match msg {
        MessageView::Welcome { .. } => welcome::banner_height(
            if width > 3 {
                width - 3
            } else {
                0
            },
        ),
        _ => {
            let n = rows_of_lines(text::lines_of(estimate_text(msg)), display_cols(width));
            if n > 1 {
                n
            } else {
                1
            }
        },
    }
}

/// Estimates the rows that `msg` takes on a display of `width` columns.
pub fn estimate_lines(msg: &ChatMessage, width: u16) -> (r: usize)
    ensures
        r == text::capped(estimated_rows(msg@, width as int)),
{
    match msg {
        ChatMessage::Welcome { .. } => {
            return welcome::line_count(
                if width > 3 {
                    width - 3
                } else {
                    0
                },
            );
        },
        _ => {},
    }
    let w: usize = if width > 1 {
        width as usize
    } else {
        1
    };
    let shown = estimate_text_of(msg);
    let lines = text::lines(shown.as_str());
    let ghost all = text::lines_of(estimate_text(msg@));
    let mut total: usize = 0;
    let mut i: usize = 0;
    assert(all.take(0) =~= Seq::<Seq<char>>::empty());
    while i < lines.len()
        invariant
            i <= lines@.len(),
            all == text::texts(lines@),
            1 <= w <= u16::MAX,
            total == text::capped(rows_of_lines(all.take(i as int), w as nat)),
        decreases lines@.len() - i,
    {
        assert(lines@[i as int]@ == all[i as int]);
        assert(all.take(i + 1).drop_last() =~= all.take(i as int));
        let rows: usize = if lines[i].as_str().is_empty() {
            1
        } else {
            let n: usize = width::str_width(lines[i].as_str());
            if n == 0 {
                1
            } else {
                let q: usize = (n - 1) / w;
                assert((n + w - 1) / w as int == (n - 1) / w as int + 1) by (nonlinear_arith)
                    requires
                        n >= 1,
                        w >= 1,
                ;
                assert(q <= n - 1) by (nonlinear_arith)
                    requires
                        n >= 1,
                        w >= 1,
                        q == (n - 1) / w as int,
                ;
                q + 1
            }
        };
        total = text::capped_add(total, rows);
        i = i + 1;
    }
    assert(all.take(i as int) =~= all);
    if total > 1 {
        total
    } else {
        1
    }
}

} // verus!
