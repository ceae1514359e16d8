//! The input area: its rows, its cursor and the room it takes.

use vstd::prelude::*;
use crate::text;
use crate::tui::span::{self, push_line, raw, styled, Line, SpanView};
use crate::tui::theme;
use crate::tui::theme::Style;
use crate::tui::width;
use crate::tui::wrap;

verus! {

/// The columns of text on the first row of a line, which the prompt shares.
pub open spec fn first_cap(w: nat) -> nat {
    if w > 3 {
        (w - 2) as nat
    } else {
        1
    }
}

fn first_cap_of(w: usize) -> (r: usize)
    ensures
        r == first_cap(w as nat),
{
    if w > 3 {
        w - 2
    } else {
        1
    }
}

/// Where the cursor stands, in characters; behind the end where the offset
/// is behind the end.
pub open spec fn cursor_pos(input: Seq<char>, cursor: int) -> int {
    if cursor > text::byte_len(input) {
        input.len() as int + 1
    } else {
        text::char_index(input, cursor)
    }
}

/// Whether `cursor` is an offset that the input area can show: at the start
/// of a character, at the end, or behind it.
pub open spec fn shows_cursor(input: Seq<char>, cursor: int) -> bool {
    text::is_boundary(input, cursor) || cursor > text::byte_len(input)
}

fn find_cursor(input: &str, cs: &Vec<char>, cursor: usize) -> (p: Option<usize>)
    requires
        cs@ == input@,
        shows_cursor(input@, cursor as int),
    ensures
        match p {
            Some(p) => p == cursor_pos(input@, cursor as int) && p <= cs@.len(),
            None => cursor_pos(input@, cursor as int) == cs@.len() + 1,
        },
{
    let n: usize = text::byte_len_of(input);
    if cursor > n {
        None
    } else {
        Some(text::index_at(cs, cursor))
    }
}

/// The cursor in a line of `n` characters that starts at `start`.
fn cursor_in_line(p: Option<usize>, start: usize, n: usize) -> (c: Option<usize>)
    ensures
        c == (match p {
            Some(p) => if start <= p <= start + n {
                Some((p - start) as usize)
            } else {
                None
            },
            None => None,
        }),
{
    match p {
        Some(p) => if p >= start && p - start <= n {
            Some(p - start)
        } else {
            None
        },
        None => None,
    }
}

/// The first logical line of `s`.
pub open spec fn head_line(s: Seq<char>) -> Seq<char> {
    s.take(text::first_char(s, '\n'))
}

/// The rows of `line[from..]`: where each starts and ends. The first row
/// has `cap` columns, the others `w`.
pub open spec fn chunks(line: Seq<char>, from: int, cap: nat, w: nat) -> Seq<(int, int)>
    decreases line.len() - from,
{
    if from < 0 || from >= line.len() {
        Seq::empty()
    } else {
        proof {
            width::lemma_fit_count(line.skip(from), cap);
        }
        let to = from + width::split_count(line.skip(from), cap);
        seq![(from, to)] + chunks(line, to, w, w)
    }
}

/// The rows of a logical line; an empty one has a row too.
pub open spec fn row_ranges(line: Seq<char>, w: nat) -> Seq<(int, int)> {
    if line.len() == 0 {
        seq![(0int, 0int)]
    } else {
        chunks(line, 0, first_cap(w), w)
    }
}

/// Whether the cursor at `c` stands on the row `row` of `line`: inside it,
/// or behind the last character where the row is the last.
pub open spec fn on_row(line: Seq<char>, row: (int, int), c: int) -> bool {
    row.0 <= c && (c < row.1 || (row.1 == line.len() && c == row.1))
}

// ── Rows ────────────────────────────────────────────────────────────────

/// The prompt in front of a logical line.
pub open spec fn prompt() -> SpanView {
    span::styled_view(theme::ICON_USER@, Style::fg(theme::ACCENT).bold())
}

/// The spans of the row that carries the cursor: the text before it, the
/// character under it and the text behind. Behind the last character the
/// cursor is a space, and a second, blank cell follows a wide character.
pub open spec fn cursor_spans(
    line: Seq<char>,
    row: (int, int),
    c: int,
    cursor_style: Style,
) -> Seq<SpanView> {
    let before = span::styled_view(line.subrange(row.0, c), Style::plain());
    if c < row.1 {
        let at = span::styled_view(seq![line[c]], cursor_style);
        if c + 1 < row.1 {
            seq![before, at, span::styled_view(line.subrange(c + 1, row.1), Style::plain())]
        } else {
            seq![before, at]
        }
    } else {
        let at = span::styled_view(" "@, cursor_style);
        if c > 0 && width::cols_of(line[c - 1]) >= 2 {
            seq![before, at, span::styled_view(" "@, Style::fg(theme::TEXT_SECONDARY))]
        } else {
            seq![before, at]
        }
    }
}

/// The spans of one row of `line`. `c` is where the cursor stands in it, if
/// it does.
pub open spec fn row_spans(
    line: Seq<char>,
    row: (int, int),
    c: Option<int>,
    cursor_style: Style,
) -> Seq<SpanView> {
    let head = if row.0 == 0 {
        seq![prompt()]
    } else {
        Seq::<SpanView>::empty()
    };
    let here = c matches Some(at) && on_row(line, row, at);
    if line.len() == 0 {
        if here {
            head.push(span::styled_view(" "@, cursor_style))
        } else {
            head
        }
    } else if here {
        head + cursor_spans(line, row, c->0, cursor_style)
    } else {
        head.push(span::styled_view(line.subrange(row.0, row.1), Style::plain()))
    }
}

/// The rows of a logical line.
pub open spec fn line_rows(line: Seq<char>, c: Option<int>, cursor_style: Style, w: nat) -> Seq<
    Seq<SpanView>,
> {
    let ranges = row_ranges(line, w);
    Seq::new(ranges.len(), |i: int| row_spans(line, ranges[i], c, cursor_style))
}

/// The cursor, where it stands in the first `n` characters or behind them.
pub open spec fn cursor_in(p: int, n: int) -> Option<int> {
    if 0 <= p <= n {
        Some(p)
    } else {
        None
    }
}

/// The rows of the input: those of each logical line in turn. `p` is the
/// cursor's position.
pub open spec fn input_rows(s: Seq<char>, p: int, cursor_style: Style, w: nat) -> Seq<
    Seq<SpanView>,
>
    decreases s.len(),
{
    let n = text::first_char(s, '\n');
    let line = head_line(s);
    let rows = line_rows(line, cursor_in(p, n), cursor_style, w);
    if 0 <= n < s.len() {
        rows + input_rows(s.skip(n + 1), p - (n + 1), cursor_style, w)
    } else {
        rows
    }
}

fn build_row(
    line: &Vec<char>,
    a: usize,
    b: usize,
    c: Option<usize>,
    cursor_style: Style,
) -> (r: Line)
    requires
        a <= b <= line@.len(),
        line@.len() > 0 ==> a < b,
        c matches Some(at) ==> at <= line@.len(),
    ensures
        r@ == row_spans(
            line@,
            (a as int, b as int),
            match c {
                Some(at) => Some(at as int),
                None => None,
            },
            cursor_style,
        ),
{
    let ghost row = (a as int, b as int);
    let mut r = Line::new();
    if a == 0 {
        r.push(styled(theme::ICON_USER, Style::fg(theme::ACCENT).bold()));
    }
    let ghost head = r@;
    assert(head =~= if a == 0 {
        seq![prompt()]
    } else {
        Seq::<SpanView>::empty()
    });
    let here = match c {
        Some(at) => a <= at && (at < b || (b == line.len() && at == b)),
        None => false,
    };
    if line.len() == 0 {
        if here {
            r.push(styled(" ", cursor_style));
        }
        return r;
    }
    if !here {
        r.push(raw(text::string_of_range(line, a, b).as_str()));
        return r;
    }
    let at: usize = match c {
        Some(at) => at,
        None => 0,
    };
    r.push(raw(text::string_of_range(line, a, at).as_str()));
    if at < b {
        let mut one = String::new();
        text::push_char(&mut one, line[at]);
        assert(one@ =~= seq![line@[at as int]]);
        r.push(styled(one.as_str(), cursor_style));
        if at + 1 < b {
            r.push(raw(text::string_of_range(line, at + 1, b).as_str()));
        }
    } else {
        r.push(styled(" ", cursor_style));
        if width::char_cols(line[at - 1]) >= 2 {
            r.push(styled(" ", Style::fg(theme::TEXT_SECONDARY)));
        }
    }
    assert(r@ =~= head + cursor_spans(line@, row, at as int, cursor_style));
    r
}

proof fn lemma_chunks_step(line: Seq<char>, from: int, cap: nat, w: nat)
    requires
        0 <= from < line.len(),
    ensures
        chunks(line, from, cap, w) == seq![
            (from, from + width::split_count(line.skip(from), cap)),
        ] + chunks(line, from + width::split_count(line.skip(from), cap), w, w),
        0 < width::split_count(line.skip(from), cap) <= line.len() - from,
{
    width::lemma_fit_count(line.skip(from), cap);
}

fn push_line_rows(
    out: &mut Vec<Line>,
    line: &Vec<char>,
    c: Option<usize>,
    cursor_style: Style,
    w: usize,
)
    requires
        c matches Some(at) ==> at <= line@.len(),
    ensures
        span::lines_view(final(out)@) == span::lines_view(old(out)@) + line_rows(
            line@,
            match c {
                Some(at) => Some(at as int),
                None => None,
            },
            cursor_style,
            w as nat,
        ),
{
    let ghost before = span::lines_view(out@);
    let ghost cg = match c {
        Some(at) => Some(at as int),
        None => None,
    };
    let ghost ranges = row_ranges(line@, w as nat);
    let ghost want = line_rows(line@, cg, cursor_style, w as nat);
    if line.len() == 0 {
        push_line(out, build_row(line, 0, 0, c, cursor_style));
        assert(span::lines_view(out@) =~= before + want);
        return ;
    }
    let mut from: usize = 0;
    let mut cap: usize = first_cap_of(w);
    let ghost mut done: int = 0;
    assert(ranges.take(0) + ranges =~= ranges);
    assert(before + want.take(0) =~= before);
    while from < line.len()
        invariant
            from <= line@.len(),
            c matches Some(at) ==> at <= line@.len(),
            cg == (match c {
                Some(at) => Some(at as int),
                None => None,
            }),
            ranges == row_ranges(line@, w as nat),
            want == line_rows(line@, cg, cursor_style, w as nat),
            0 <= done <= ranges.len(),
            ranges.take(done) + chunks(line@, from as int, cap as nat, w as nat) == ranges,
            span::lines_view(out@) == before + want.take(done),
            line@.len() > 0,
        decreases line@.len() - from,
    {
        let k: usize = width::split_chars(line, from, line.len(), cap);
        proof {
            assert(line@.subrange(from as int, line@.len() as int) =~= line@.skip(from as int));
            lemma_chunks_step(line@, from as int, cap as nat, w as nat);
            let rest = chunks(line@, from as int, cap as nat, w as nat);
            assert(ranges[done] == rest[0]);
            assert(ranges.take(done + 1) + chunks(line@, from + k, w as nat, w as nat) =~= ranges);
        }
        push_line(out, build_row(line, from, from + k, c, cursor_style));
        from = from + k;
        cap = w;
        proof {
            done = done + 1;
        }
        assert(span::lines_view(out@) =~= before + want.take(done));
    }
    assert(chunks(line@, from as int, cap as nat, w as nat) =~= Seq::<(int, int)>::empty());
    assert(ranges.take(done).len() == ranges.len());
    assert(want.take(done) =~= want);
}

/// Builds the rows of the input area, wrapped to `width` columns. Each
/// logical line starts with the prompt; the row of the cursor shows it.
pub fn build_input_lines(input: &str, cursor: usize, cursor_style: Style, width: u16) -> (r: Vec<
    Line,
>)
    requires
        shows_cursor(input@, cursor as int),
    ensures
        span::lines_view(r@) == input_rows(
            input@,
            cursor_pos(input@, cursor as int),
            cursor_style,
            wrap::display_cols(width as int),
        ),
{
    let w: usize = if width > 1 {
        width as usize
    } else {
        1
    };
    let cs = text::chars_of(input);
    let p: Option<usize> = find_cursor(input, &cs, cursor);
    let ghost pg = cursor_pos(input@, cursor as int);
    let mut out: Vec<Line> = Vec::new();
    let mut start: usize = 0;
    let ghost all = input_rows(input@, pg, cursor_style, w as nat);
    assert(cs@.skip(0) =~= cs@);
    assert(span::lines_view(out@) + all =~= all);
    loop
        invariant_except_break
            span::lines_view(out@) + input_rows(
                cs@.skip(start as int),
                pg - start,
                cursor_style,
                w as nat,
            ) == all,
        invariant
            start <= cs@.len(),
            cs@ == input@,
            match p {
                Some(p) => p == pg,
                None => pg == cs@.len() + 1,
            },
            all == input_rows(input@, pg, cursor_style, w as nat),
        ensures
            span::lines_view(out@) == all,
        decreases cs@.len() - start,
    {
        let end: usize = text::find_char(&cs, '\n', start);
        let ghost rest = cs@.skip(start as int);
        let ghost n = text::first_char(rest, '\n');
        let ghost had = span::lines_view(out@);
        let mut line: Vec<char> = Vec::new();
        let mut i: usize = start;
        while i < end
            invariant
                start <= i <= end <= cs@.len(),
                line@ == cs@.subrange(start as int, i as int),
            decreases end - i,
        {
            line.push(cs[i]);
            i = i + 1;
            assert(line@ =~= cs@.subrange(start as int, i as int));
        }
        assert(line@ =~= head_line(rest));
        let c: Option<usize> = cursor_in_line(p, start, line.len());
        push_line_rows(&mut out, &line, c, cursor_style, w);
        if end >= cs.len() {
            break;
        }
        assert(rest.skip(n + 1) =~= cs@.skip(end + 1));
        start = end + 1;
        assert(span::lines_view(out@) + input_rows(
            cs@.skip(start as int),
            pg - start,
            cursor_style,
            w as nat,
        ) =~= had + input_rows(rest, pg - (start - n - 1), cursor_style, w as nat));
    }
    out
}

// ── Metrics ─────────────────────────────────────────────────────────────

/// The layout of the wrapped input.
#[derive(Clone, Copy, Debug, PartialEq, Eq, Structural)]
pub struct InputMetrics {
    /// The rows that the input takes, one at least.
    pub rows: usize,
    /// The row of the cursor, from zero.
    pub cursor_row: usize,
    /// The column of the cursor in its row; the prompt counts.
    pub cursor_col: usize,
}

/// The row and column of the cursor at `c` among the rows of `line[from..]`.
pub open spec fn chunk_cursor(line: Seq<char>, from: int, cap: nat, w: nat, c: int) -> (nat, nat)
    decreases line.len() - from,
{
    if from < 0 || from >= line.len() {
        (0, 0)
    } else {
        proof {
            width::lemma_fit_count(line.skip(from), cap);
        }
        let to = from + width::split_count(line.skip(from), cap);
        if on_row(line, (from, to), c) {
            let prefix: nat = if from == 0 {
                2
            } else {
                0
            };
            (0, prefix + width::display_width(line.subrange(from, c)))
        } else {
            let below = chunk_cursor(line, to, w, w, c);
            (below.0 + 1, below.1)
        }
    }
}

/// The row and column of the cursor at `c` of a logical line.
pub open spec fn line_cursor(line: Seq<char>, c: int, w: nat) -> (nat, nat) {
    if line.len() == 0 {
        (0, 2)
    } else {
        chunk_cursor(line, 0, first_cap(w), w, c)
    }
}

/// The rows of the input and the place of the cursor, if it stands in it.
pub open spec fn measured(s: Seq<char>, p: int, w: nat) -> (nat, Option<(nat, nat)>)
    decreases s.len(),
{
    let n = text::first_char(s, '\n');
    let line = head_line(s);
    let rows = row_ranges(line, w).len();
    let here = cursor_in(p, n);
    if 0 <= n < s.len() {
        let rest = measured(s.skip(n + 1), p - (n + 1), w);
        (
            rows + rest.0,
            match here {
                Some(c) => Some(line_cursor(line, c, w)),
                None => match rest.1 {
                    Some(at) => Some((rows + at.0, at.1)),
                    None => None,
                },
            },
        )
    } else {
        (
            rows,
            match here {
                Some(c) => Some(line_cursor(line, c, w)),
                None => None,
            },
        )
    }
}

/// The row and the column at which the cursor is drawn; the origin where it
/// stands behind the input.
pub open spec fn drawn_at(m: (nat, Option<(nat, nat)>)) -> (nat, nat) {
    match m.1 {
        Some(at) => at,
        None => (0, 0),
    }
}

fn measure_chunks(line: &Vec<char>, c: Option<usize>, w: usize) -> (r: (usize, usize, usize))
    requires
        c matches Some(at) ==> at <= line@.len(),
        line@.len() > 0,
    ensures
        r.0 == chunks(line@, 0, first_cap(w as nat), w as nat).len(),
        c matches Some(at) ==> {
            let want = chunk_cursor(line@, 0, first_cap(w as nat), w as nat, at as int);
            r.1 == want.0 && r.2 == text::capped(want.1)
        },
{
    let mut from: usize = 0;
    let mut cap: usize = first_cap_of(w);
    let mut rows: usize = 0;
    let mut row: usize = 0;
    let mut col: usize = 0;
    let mut found = false;
    let ghost all = chunks(line@, 0, cap as nat, w as nat);
    let ghost cg = match c {
        Some(at) => at as int,
        None => 0,
    };
    let ghost target = chunk_cursor(line@, 0, cap as nat, w as nat, cg);
    while from < line.len()
        invariant
            from <= line@.len(),
            rows <= from,
            c matches Some(at) ==> at <= line@.len() && cg == at,
            rows + chunks(line@, from as int, cap as nat, w as nat).len() == all.len(),
            found ==> row == target.0 && col == text::capped(target.1),
            !found && c is Some ==> cg >= from,
            !found && c is Some ==> (from < line@.len() || from == 0) && target == ({
                let below = chunk_cursor(line@, from as int, cap as nat, w as nat, cg);
                (below.0 + rows as nat, below.1)
            }),
        decreases line@.len() - from,
    {
        let k: usize = width::split_chars(line, from, line.len(), cap);
        proof {
            assert(line@.subrange(from as int, line@.len() as int) =~= line@.skip(from as int));
            lemma_chunks_step(line@, from as int, cap as nat, w as nat);
        }
        let to: usize = from + k;
        match c {
            Some(at) => {
                if !found && at >= from && (at < to || (to == line.len() && at == to)) {
                    found = true;
                    row = rows;
                    let part = text::string_of_range(line, from, at);
                    let prefix: usize = if from == 0 {
                        2
                    } else {
                        0
                    };
                    col = text::capped_add(prefix, width::str_width(part.as_str()));
                }
            },
            None => {},
        }
        rows = rows + 1;
        from = to;
        cap = w;
    }
    (rows, row, col)
}

/// Measures the input as [`build_input_lines`] lays it out: how many rows it
/// takes and where the cursor stands.
pub fn input_metrics(input: &str, cursor: usize, width: u16) -> (r: InputMetrics)
    requires
        shows_cursor(input@, cursor as int),
    ensures
        ({
            let m = measured(
                input@,
                cursor_pos(input@, cursor as int),
                wrap::display_cols(width as int),
            );
            &&& r.rows == text::capped(m.0)
            &&& r.cursor_row == text::capped(drawn_at(m).0)
            &&& r.cursor_col == text::capped(drawn_at(m).1)
        }),
{
    let w: usize = if width > 1 {
        width as usize
    } else {
        1
    };
    let cs = text::chars_of(input);
    let p: Option<usize> = find_cursor(input, &cs, cursor);
    let ghost pg = cursor_pos(input@, cursor as int);
    let ghost all = measured(input@, pg, w as nat);
    let mut rows: usize = 0;
    let mut cursor_row: usize = 0;
    let mut cursor_col: usize = 0;
    let mut found = false;
    let mut start: usize = 0;
    let ghost mut done: nat = 0;
    assert(cs@.skip(0) =~= cs@);
    loop
        invariant_except_break
            all.0 == done + measured(cs@.skip(start as int), pg - start, w as nat).0,
            !found ==> all.1 == (match measured(cs@.skip(start as int), pg - start, w as nat).1 {
                Some(at) => Some((done + at.0, at.1)),
                None => None,
            }),
        invariant
            start <= cs@.len(),
            cs@ == input@,
            match p {
                Some(p) => p == pg,
                None => pg == cs@.len() + 1,
            },
            all == measured(input@, pg, w as nat),
            rows == text::capped(done),
            found ==> all.1 is Some && cursor_row == text::capped(drawn_at(all).0) && cursor_col
                == text::capped(drawn_at(all).1),
            !found ==> cursor_row == 0 && cursor_col == 0,
        ensures
            all.0 == done,
            !found ==> all.1 is None,
        decreases cs@.len() - start,
    {
        let end: usize = text::find_char(&cs, '\n', start);
        let ghost rest = cs@.skip(start as int);
        let ghost n = text::first_char(rest, '\n');
        let mut line: Vec<char> = Vec::new();
        let mut i: usize = start;
        while i < end
            invariant
                start <= i <= end <= cs@.len(),
                line@ == cs@.subrange(start as int, i as int),
            decreases end - i,
        {
            line.push(cs[i]);
            i = i + 1;
            assert(line@ =~= cs@.subrange(start as int, i as int));
        }
        assert(line@ =~= head_line(rest));
        let c: Option<usize> = cursor_in_line(p, start, line.len());
        let m: (usize, usize, usize) = if line.len() == 0 {
            (1, 0, 2)
        } else {
            measure_chunks(&line, c, w)
        };
        if !found && c.is_some() {
            found = true;
            cursor_row = text::capped_add(rows, m.1);
            cursor_col = m.2;
        }
        rows = text::capped_add(rows, m.0);
        proof {
            done = done + m.0 as nat;
        }
        if end >= cs.len() {
            break;
        }
        assert(rest.skip(n + 1) =~= cs@.skip(end + 1));
        start = end + 1;
    }
    InputMetrics {
        rows: if rows > 1 {
            rows
        } else {
            1
        },
        cursor_row,
        cursor_col,
    }
}

// ── What the two have in common ─────────────────────────────────────────

/// The input area is drawn with as many rows as are measured for it.
pub proof fn law_rows_match_metrics(s: Seq<char>, p: int, cursor_style: Style, w: nat)
    ensures
        input_rows(s, p, cursor_style, w).len() == measured(s, p, w).0,
    decreases s.len(),
{
    let n = text::first_char(s, '\n');
    text::lemma_first_char(s, '\n');
    if 0 <= n < s.len() {
        law_rows_match_metrics(s.skip(n + 1), p - (n + 1), cursor_style, w);
    }
}

proof fn lemma_chunk_cursor_inside(line: Seq<char>, from: int, cap: nat, w: nat, c: int)
    requires
        0 <= from <= c <= line.len(),
        from < line.len(),
    ensures
        chunk_cursor(line, from, cap, w, c).0 < chunks(line, from, cap, w).len(),
        ({
            let row = chunk_cursor(line, from, cap, w, c).0 as int;
            on_row(line, chunks(line, from, cap, w)[row], c)
        }),
    decreases line.len() - from,
{
    lemma_chunks_step(line, from, cap, w);
    let to = from + width::split_count(line.skip(from), cap);
    if !on_row(line, (from, to), c) {
        lemma_chunk_cursor_inside(line, to, w, w, c);
        let row = chunk_cursor(line, to, w, w, c).0 as int;
        assert(chunks(line, from, cap, w)[row + 1] == chunks(line, to, w, w)[row]);
    }
}

/// A cursor that stands in the input has a row, and it is one of the rows
/// that the input is measured to take.
pub proof fn law_cursor_has_a_row(s: Seq<char>, p: int, w: nat)
    requires
        0 <= p <= s.len(),
    ensures
        measured(s, p, w).1 matches Some(at) && at.0 < measured(s, p, w).0,
    decreases s.len(),
{
    let n = text::first_char(s, '\n');
    let line = head_line(s);
    text::lemma_first_char(s, '\n');
    if p <= n {
        if line.len() > 0 {
            lemma_chunk_cursor_inside(line, 0, first_cap(w), w, p);
        }
    } else {
        law_cursor_has_a_row(s.skip(n + 1), p - (n + 1), w);
    }
}

/// Whether some span of a row has the style of the cursor.
pub open spec fn shows_style(row: Seq<SpanView>, style: Style) -> bool {
    exists|k: int| 0 <= k < row.len() && (#[trigger] row[k]).style == style
}

proof fn lemma_row_shows_cursor(line: Seq<char>, row: (int, int), c: int, cursor_style: Style)
    requires
        on_row(line, row, c),
    ensures
        shows_style(row_spans(line, row, Some(c), cursor_style), cursor_style),
{
    let spans = row_spans(line, row, Some(c), cursor_style);
    let head: int = if row.0 == 0 {
        1
    } else {
        0
    };
    if line.len() == 0 {
        assert(spans[head].style == cursor_style);
    } else {
        assert(spans[head + 1].style == cursor_style);
    }
}

/// The cursor is drawn on the row that it is measured to stand on.
pub proof fn law_cursor_is_drawn_where_measured(
    s: Seq<char>,
    p: int,
    cursor_style: Style,
    w: nat,
)
    requires
        0 <= p <= s.len(),
    ensures
        shows_style(
            input_rows(s, p, cursor_style, w)[drawn_at(measured(s, p, w)).0 as int],
            cursor_style,
        ),
    decreases s.len(),
{
    let n = text::first_char(s, '\n');
    let line = head_line(s);
    let rows = line_rows(line, cursor_in(p, n), cursor_style, w);
    let ranges = row_ranges(line, w);
    text::lemma_first_char(s, '\n');
    law_cursor_has_a_row(s, p, w);
    if p <= n {
        if line.len() > 0 {
            lemma_chunk_cursor_inside(line, 0, first_cap(w), w, p);
        }
        let at = line_cursor(line, p, w).0 as int;
        lemma_row_shows_cursor(line, ranges[at], p, cursor_style);
        assert(input_rows(s, p, cursor_style, w)[at] == rows[at]);
    } else {
        let below = s.skip(n + 1);
        let q = p - (n + 1);
        law_cursor_has_a_row(below, q, w);
        law_cursor_is_drawn_where_measured(below, q, cursor_style, w);
        law_rows_match_metrics(below, q, cursor_style, w);
        let at = drawn_at(measured(below, q, w)).0 as int;
        assert(input_rows(s, p, cursor_style, w)[rows.len() + at] == input_rows(
            below,
            q,
            cursor_style,
            w,
        )[at]);
    }
}

/// No row of the input is empty of text but that of an empty line, and the
/// rows of a line hold its characters in order, none twice and none left out.
pub proof fn law_rows_cover_line(line: Seq<char>, from: int, cap: nat, w: nat)
    requires
        0 <= from < line.len(),
    ensures
        ({
            let rows = chunks(line, from, cap, w);
            &&& rows.len() > 0
            &&& rows[0].0 == from
            &&& rows.last().1 == line.len()
            &&& forall|i: int| 0 <= i < rows.len() ==> (#[trigger] rows[i]).0 < rows[i].1
            &&& forall|i: int|
                #![trigger rows[i]]
                0 <= i < rows.len() - 1 ==> rows[i].1 == rows[i + 1].0
        }),
    decreases line.len() - from,
{
    lemma_chunks_step(line, from, cap, w);
    let to = from + width::split_count(line.skip(from), cap);
    let rest = chunks(line, to, w, w);
    let rows = chunks(line, from, cap, w);
    if to < line.len() {
        law_rows_cover_line(line, to, w, w);
        assert(rows.last() == rest.last());
    } else {
        assert(rest =~= Seq::<(int, int)>::empty());
    }
    assert forall|i: int| 0 <= i < rows.len() implies (#[trigger] rows[i]).0 < rows[i].1 by {
        if i > 0 {
            assert(rows[i] == rest[i - 1]);
        }
    }
    assert forall|i: int|
        #![trigger rows[i]]
        0 <= i < rows.len() - 1 implies rows[i].1 == rows[i + 1].0 by {
        assert(rows[i + 1] == rest[i]);
        if i > 0 {
            assert(rows[i] == rest[i - 1]);
        }
    }
}

proof fn lemma_chunks_fit(line: Seq<char>, from: int, cap: nat, w: nat, i: int)
    requires
        0 <= from,
        0 <= i < chunks(line, from, cap, w).len(),
    ensures
        ({
            let row = chunks(line, from, cap, w)[i];
            let room = if i == 0 {
                cap
            } else {
                w
            };
            width::display_width(line.subrange(row.0, row.1)) <= room || row.1 - row.0 == 1
        }),
    decreases line.len() - from,
{
    let rest = line.skip(from);
    width::lemma_fit_count(rest, cap);
    let k = width::split_count(rest, cap);
    let to = from + k;
    if i == 0 {
        assert(rest.take(k) =~= line.subrange(from, to));
    } else {
        lemma_chunks_fit(line, to, w, w, i - 1);
        assert(chunks(line, from, cap, w)[i] == chunks(line, to, w, w)[i - 1]);
    }
}

/// The text on every row of a line fits in the columns that the row has, or
/// is a single character.
pub proof fn law_input_rows_fit(line: Seq<char>, w: nat, i: int)
    requires
        line.len() > 0,
        0 <= i < row_ranges(line, w).len(),
    ensures
        ({
            let row = row_ranges(line, w)[i];
            let room = if i == 0 {
                first_cap(w)
            } else {
                w
            };
            width::display_width(line.subrange(row.0, row.1)) <= room || row.1 - row.0 == 1
        }),
{
    lemma_chunks_fit(line, 0, first_cap(w), w, i);
}

} // verus!
