//! The startup banner: logo, mascot and the facts of the session.

use vstd::prelude::*;
use crate::text;
use crate::tui::span::{self, line1, push_line, raw, styled, Line, SpanView};
use crate::tui::theme;
use crate::tui::theme::Style;
use crate::tui::width;

verus! {

/// Chat width below which the compact logo is used.
pub const COMPACT_THRESHOLD: u16 = 72;

/// The indent of every banner line.
pub const INDENT: &'static str = "    ";

/// The column at which the facts start beside the mascot.
pub const INFO_COL: usize = 14;

pub const TAGLINE: &'static str = "weaving code, together.";

pub const TIPS: &'static str = "/help commands · /plan plan mode · !cmd shell";

/// The full logo, six rows.
pub open spec fn logo_full() -> Seq<Seq<char>> {
    seq![
        "██╗      ██████╗  ██████╗ ███╗   ███╗██╗███████╗"@,
        "██║     ██╔═══██╗██╔═══██╗████╗ ████║██║██╔════╝"@,
        "██║     ██║   ██║██║   ██║██╔████╔██║██║███████╗"@,
        "██║     ██║   ██║██║   ██║██║╚██╔╝██║██║╚════██║"@,
        "███████╗╚██████╔╝╚██████╔╝██║ ╚═╝ ██║██║███████║"@,
        "╚══════╝ ╚═════╝  ╚═════╝ ╚═╝     ╚═╝╚═╝╚══════╝"@,
    ]
}

/// The compact logo, three rows.
pub open spec fn logo_compact() -> Seq<Seq<char>> {
    seq!["╦  ╔═╗╔═╗╔╦╗╦╔═╗"@, "║  ║ ║║ ║║║║║╚═╗"@, "╩═╝╚═╝╚═╝╩ ╩╩╚═╝"@]
}

/// The mascot, a weaver bird of three rows.
pub open spec fn mascot() -> Seq<Seq<char>> {
    seq![" __      "@, "<(o )___ "@, " (.__)_/ "@]
}

/// The logo for a chat of `width` columns.
pub open spec fn logo(width: int) -> Seq<Seq<char>> {
    if width >= COMPACT_THRESHOLD {
        logo_full()
    } else {
        logo_compact()
    }
}

fn owned(rows: &[&str]) -> (r: Vec<String>)
    ensures
        text::texts(r@) == rows@.map_values(|s: &str| s@),
{
    let mut r: Vec<String> = Vec::new();
    let mut i: usize = 0;
    while i < rows.len()
        invariant
            i <= rows@.len(),
            text::texts(r@) == rows@.map_values(|s: &str| s@).take(i as int),
        decreases rows@.len() - i,
    {
        text::push_text(&mut r, rows[i].to_owned());
        i = i + 1;
        assert(text::texts(r@) =~= rows@.map_values(|s: &str| s@).take(i as int));
    }
    assert(rows@.map_values(|s: &str| s@).take(i as int) =~= rows@.map_values(|s: &str| s@));
    r
}

/// The logo for a chat of `area_width` columns.
pub fn logo_rows(area_width: u16) -> (r: Vec<String>)
    ensures
        text::texts(r@) == logo(area_width as int),
{
    if area_width >= COMPACT_THRESHOLD {
        let r = owned(
            &[
                "██╗      ██████╗  ██████╗ ███╗   ███╗██╗███████╗",
                "██║     ██╔═══██╗██╔═══██╗████╗ ████║██║██╔════╝",
                "██║     ██║   ██║██║   ██║██╔████╔██║██║███████╗",
                "██║     ██║   ██║██║   ██║██║╚██╔╝██║██║╚════██║",
                "███████╗╚██████╔╝╚██████╔╝██║ ╚═╝ ██║██║███████║",
                "╚══════╝ ╚═════╝  ╚═════╝ ╚═╝     ╚═╝╚═╝╚══════╝",
            ],
        );
        assert(text::texts(r@) =~= logo_full());
        r
    } else {
        let r = owned(&["╦  ╔═╗╔═╗╔╦╗╦╔═╗", "║  ║ ║║ ║║║║║╚═╗", "╩═╝╚═╝╚═╝╩ ╩╩╚═╝"]);
        assert(text::texts(r@) =~= logo_compact());
        r
    }
}

/// The mascot's rows.
pub fn mascot_rows() -> (r: Vec<String>)
    ensures
        text::texts(r@) == mascot(),
{
    let r = owned(&[" __      ", "<(o )___ ", " (.__)_/ "]);
    assert(text::texts(r@) =~= mascot());
    r
}

/// The style of the logo.
#[verifier::allow_in_spec]
pub fn logo_style() -> Style
    returns
        Style::fg(theme::heading()).bold(),
{
    Style::fg(theme::heading()).bold()
}

/// The style of the mascot.
#[verifier::allow_in_spec]
pub fn mascot_style() -> Style
    returns
        Style::fg(theme::WARNING).bold(),
{
    Style::fg(theme::WARNING).bold()
}

/// The columns that are left for the workspace path, sixteen at least.
pub open spec fn path_budget(width: int) -> nat {
    if width - 30 > 16 {
        (width - 30) as nat
    } else {
        16
    }
}

/// `s` where it fits in `max` columns; otherwise its leading characters, as
/// many as leave a column for the ellipsis that follows. A character without
/// a width of its own counts for no column.
pub open spec fn clipped(s: Seq<char>, max: nat) -> Seq<char> {
    if width::display_width(s) <= max {
        s
    } else {
        width::cut_at(s, clip_count(s, width::less_one(max)), max)
    }
}

/// The columns of `c` by itself; none where it has no width.
pub open spec fn own_width(c: char) -> nat {
    match width::char_width(c) {
        Some(w) => w as nat,
        None => 0,
    }
}

/// How many leading characters take `max` columns, each by its own width.
pub open spec fn clip_count(s: Seq<char>, max: nat) -> nat
    decreases s.len(),
{
    if s.len() == 0 || own_width(s[0]) > max {
        0
    } else {
        1 + clip_count(s.skip(1), (max - own_width(s[0])) as nat)
    }
}

fn count_clipped(cs: &Vec<char>, max: usize) -> (k: usize)
    ensures
        k == clip_count(cs@, max as nat),
        k <= cs@.len(),
{
    let mut left: usize = max;
    let mut i: usize = 0;
    assert(cs@.skip(0) =~= cs@);
    while i < cs.len()
        invariant
            i <= cs@.len(),
            i + clip_count(cs@.skip(i as int), left as nat) == clip_count(cs@, max as nat),
        decreases cs@.len() - i,
    {
        let w: usize = match width::char_width_of(cs[i]) {
            Some(w) => w,
            None => 0,
        };
        assert(cs@.skip(i as int).skip(1) =~= cs@.skip(i + 1));
        if w > left {
            return i;
        }
        left = left - w;
        i = i + 1;
    }
    i
}

/// Truncates `s` to `max_width` columns, with an ellipsis where it is cut.
pub fn clip_to_width(s: &str, max_width: usize) -> (r: String)
    ensures
        r@ == clipped(s@, max_width as nat),
{
    if width::str_width(s) <= max_width {
        return s.to_owned();
    }
    let cs = text::chars_of(s);
    let limit: usize = if max_width > 0 {
        max_width - 1
    } else {
        0
    };
    let n: usize = count_clipped(&cs, limit);
    width::cut_text(&cs, n, max_width)
}

proof fn lemma_clip_count(s: Seq<char>, max: nat)
    ensures
        clip_count(s, max) <= s.len(),
    decreases s.len(),
{
    if s.len() > 0 && own_width(s[0]) <= max {
        lemma_clip_count(s.skip(1), (max - own_width(s[0])) as nat);
    }
}

/// A clipped text fits, unless there is no room for more than the ellipsis.
pub proof fn law_clipped_fits(s: Seq<char>, max: nat)
    requires
        max > 0,
    ensures
        width::display_width(clipped(s, max)) <= max || clipped(s, max) == "…"@,
{
    let n = clip_count(s, width::less_one(max));
    lemma_clip_count(s, width::less_one(max));
    width::lemma_cut_fits(s, n, max);
}

/// The spaces between a mascot row and the facts beside it.
pub open spec fn gap(art: Seq<char>) -> SpanView {
    span::styled_view(
        text::repeated(' ', text::missing(width::display_width(art), INFO_COL as nat)),
        Style::plain(),
    )
}

fn gap_span(art: &str) -> (r: span::Span)
    ensures
        r@ == gap(art@),
{
    let w: usize = width::str_width(art);
    let n: usize = if w < INFO_COL {
        INFO_COL - w
    } else {
        0
    };
    raw(text::repeat(' ', n).as_str())
}

/// A mascot row.
pub open spec fn art_span(art: Seq<char>) -> SpanView {
    span::styled_view(INDENT@ + art, mascot_style())
}

/// The mascot row with the tagline.
pub open spec fn tagline_row(art: Seq<char>) -> Seq<SpanView> {
    seq![art_span(art), gap(art), span::styled_view(TAGLINE@, theme::hint_style().italic())]
}

/// A mascot row with a label and a value.
pub open spec fn fact_row(art: Seq<char>, label: Seq<char>, value: Seq<char>) -> Seq<SpanView> {
    seq![
        art_span(art),
        gap(art),
        span::styled_view(label, Style::fg(theme::TEXT_SECONDARY)),
        span::styled_view(value, Style::fg(theme::TEXT_PRIMARY)),
    ]
}

/// The rows of the logo as lines.
pub open spec fn logo_lines(rows: Seq<Seq<char>>) -> Seq<Seq<SpanView>> {
    Seq::new(rows.len(), |i: int| seq![span::styled_view(INDENT@ + rows[i], logo_style())])
}

/// The mascot with the facts beside it, and the tips below.
pub open spec fn banner_tail(model: Seq<char>, workspace: Seq<char>, width: int) -> Seq<
    Seq<SpanView>,
> {
    seq![
        Seq::<SpanView>::empty(),
        tagline_row(mascot()[0]),
        fact_row(mascot()[1], "model       "@, model),
        fact_row(mascot()[2], "workspace   "@, clipped(workspace, path_budget(width))),
        Seq::<SpanView>::empty(),
        seq![span::styled_view(INDENT@ + TIPS@, theme::hint_style())],
    ]
}

/// The banner: the logo, the mascot with the facts beside it, and the tips.
pub open spec fn banner(model: Seq<char>, workspace: Seq<char>, width: int) -> Seq<Seq<SpanView>> {
    logo_lines(logo(width)) + banner_tail(model, workspace, width)
}

fn fact_line(art: &str, label: &str, value: &str) -> (r: Line)
    ensures
        r@ == fact_row(art@, label@, value@),
{
    let mut r = line1(styled(text::cat2(INDENT, art).as_str(), mascot_style()));
    r.push(gap_span(art));
    r.push(styled(label, Style::fg(theme::TEXT_SECONDARY)));
    r.push(styled(value, Style::fg(theme::TEXT_PRIMARY)));
    assert(r@ =~= fact_row(art@, label@, value@));
    r
}

/// The lines of the banner for a chat of `area_width` columns.
pub fn render(model: &str, workspace: &str, area_width: u16) -> (r: Vec<Line>)
    ensures
        span::lines_view(r@) == banner(model@, workspace@, area_width as int),
{
    let rows = logo_rows(area_width);
    let mut r: Vec<Line> = Vec::new();
    let mut i: usize = 0;
    let ghost head = logo_lines(logo(area_width as int));
    assert(span::lines_view(r@) =~= head.take(0));
    while i < rows.len()
        invariant
            i <= rows@.len(),
            text::texts(rows@) == logo(area_width as int),
            head == logo_lines(logo(area_width as int)),
            span::lines_view(r@) == head.take(i as int),
        decreases rows@.len() - i,
    {
        assert(rows@[i as int]@ == text::texts(rows@)[i as int]);
        push_line(&mut r, line1(styled(text::cat2(INDENT, rows[i].as_str()).as_str(), logo_style())));
        i = i + 1;
        assert(span::lines_view(r@) =~= head.take(i as int));
    }
    assert(head.take(i as int) =~= head);
    push_line(&mut r, Line::new());

    let budget: usize = if area_width > 46 {
        area_width as usize - 30
    } else {
        16
    };
    let path = clip_to_width(workspace, budget);
    let art = mascot_rows();
    assert(art@.len() == text::texts(art@).len() == 3);
    assert(art@[0]@ == text::texts(art@)[0]);
    assert(art@[1]@ == text::texts(art@)[1]);
    assert(art@[2]@ == text::texts(art@)[2]);
    let mut first = line1(styled(text::cat2(INDENT, art[0].as_str()).as_str(), mascot_style()));
    first.push(gap_span(art[0].as_str()));
    first.push(styled(TAGLINE, theme::hint_style().italic()));
    assert(first@ =~= tagline_row(mascot()[0]));
    push_line(&mut r, first);
    push_line(&mut r, fact_line(art[1].as_str(), "model       ", model));
    push_line(&mut r, fact_line(art[2].as_str(), "workspace   ", path.as_str()));
    push_line(&mut r, Line::new());
    push_line(&mut r, line1(styled(text::cat2(INDENT, TIPS).as_str(), theme::hint_style())));
    assert(span::lines_view(r@) =~= banner(model@, workspace@, area_width as int));
    r
}

/// The number of lines of the banner at a width.
pub open spec fn banner_height(width: int) -> nat {
    if width >= COMPACT_THRESHOLD {
        12
    } else {
        9
    }
}

/// The number of lines that the banner takes at the given chat width.
pub fn line_count(area_width: u16) -> (r: usize)
    ensures
        r == banner_height(area_width as int),
{
    let logo_lines: usize = if area_width >= COMPACT_THRESHOLD {
        6
    } else {
        3
    };
    logo_lines + 1 + 3 + 1 + 1
}

/// The banner has as many lines as are counted for it, at every width.
pub proof fn law_line_count_matches_render(model: Seq<char>, workspace: Seq<char>, width: int)
    ensures
        banner(model, workspace, width).len() == banner_height(width),
{
}

} // verus!
