//! The overlays: the thread picker, the completion popup, and the help.

use vstd::prelude::*;
use crate::text;
use crate::tui::app::Rect;
use crate::tui::keyboard::{cancel_shortcut_label, copy_shortcut_label, Platform};
use crate::tui::messages::{
    self, slash_commands, CommandInfo, CompletionView, InfoView, PickerView, SlashCompletionState,
    ThreadInfo, ThreadPicker, ThreadView,
};
use crate::tui::span::{self, line1, line2, line3, push_line, raw, styled, Line, SpanView};
use crate::tui::status::{self, format_human};
use crate::tui::theme::{self, Style};

verus! {

/// A rectangle of a size in the middle of an area.
pub open spec fn in_the_middle(area: Rect, width: u16, height: u16) -> Rect {
    Rect {
        x: (area.x + text::missing(width as nat, area.width as nat) / 2) as u16,
        y: (area.y + text::missing(height as nat, area.height as nat) / 2) as u16,
        width,
        height,
    }
}

/// A rectangle of a size in the middle of an area; at its corner where it
/// does not fit.
pub fn centered(area: Rect, width: u16, height: u16) -> (r: Rect)
    requires
        area.x + area.width <= u16::MAX,
        area.y + area.height <= u16::MAX,
    ensures
        r == in_the_middle(area, width, height),
        r.x == area.x + text::missing(width as nat, area.width as nat) / 2,
        r.y == area.y + text::missing(height as nat, area.height as nat) / 2,
{
    Rect {
        x: area.x + area.width.saturating_sub(width) / 2,
        y: area.y + area.height.saturating_sub(height) / 2,
        width,
        height,
    }
}

/// The style of an entry: the selected one stands out.
#[verifier::allow_in_spec]
pub fn entry_style(selected: bool) -> Style
    returns
        (if selected {
            Style::fg(theme::ACCENT).bold()
        } else {
            Style::fg(theme::TEXT_SECONDARY)
        }),
{
    if selected {
        Style::fg(theme::ACCENT).bold()
    } else {
        Style::fg(theme::TEXT_SECONDARY)
    }
}

// ── The thread picker ───────────────────────────────────────────────────

/// The rows of the thread picker, its border included: it does not grow
/// beyond fourteen.
pub open spec fn picker_rows(threads: nat) -> nat {
    if threads >= 10 {
        14
    } else {
        threads + 4
    }
}

/// The rows of the thread picker, its border included.
pub fn picker_height(p: &ThreadPicker) -> (r: u16)
    ensures
        r == picker_rows(p@.threads.len()),
{
    let n: usize = p.threads.len();
    if n >= 10 {
        14
    } else {
        n as u16 + 4
    }
}

/// What an entry says of a conversation: its name, the number of its
/// messages and of its characters, and when it was saved.
pub open spec fn thread_text(t: ThreadView, scaled: Seq<char>) -> Seq<char> {
    text::padded_right(t.name, 20, ' ') + "  "@ + text::padded_left(
        text::decimal(t.message_count as nat),
        4,
        ' ',
    ) + " msgs  "@ + text::padded_right(
        status::human(t.total_chars as nat, scaled, "k"@, "M"@),
        6,
        ' ',
    ) + " chars  "@ + t.saved_at
}

/// The entry of a conversation.
pub open spec fn thread_line(t: ThreadView, scaled: Seq<char>, selected: bool) -> Seq<SpanView> {
    seq![
        span::styled_view(
            if selected {
                " ▶ "@
            } else {
                "   "@
            },
            entry_style(selected),
        ),
        span::styled_view(thread_text(t, scaled), entry_style(selected)),
    ]
}

fn thread_entry(t: &ThreadInfo, scaled: &str, selected: bool) -> (r: Line)
    ensures
        r@ == thread_line(t@, scaled@, selected),
{
    let style = entry_style(selected);
    let marker = if selected {
        " ▶ "
    } else {
        "   "
    };
    let name = text::pad_right(t.name.as_str(), 20);
    let count = text::pad_left(text::decimal_of(t.message_count as u64).as_str(), 4, ' ');
    let chars = text::pad_right(format_human(t.total_chars, scaled, "k", "M").as_str(), 6);
    let info = text::cat7(
        name.as_str(),
        "  ",
        count.as_str(),
        " msgs  ",
        chars.as_str(),
        " chars  ",
        t.saved_at.as_str(),
    );
    line2(styled(marker, style), styled(info.as_str(), style))
}

/// The lines of the thread picker: one for each conversation, blank lines up
/// to the last row, and the keys.
pub open spec fn picker_lines(p: PickerView, scaled: Seq<Seq<char>>, rows: nat) -> Seq<
    Seq<SpanView>,
> {
    let entries = Seq::new(
        p.threads.len(),
        |i: int| thread_line(p.threads[i], scaled[i], i == p.selected),
    );
    entries + Seq::new(
        text::missing(entries.len() + 1, rows),
        |i: int| span::blank(),
    ) + seq![
        seq![
            span::styled_view(
                " ↑↓ navigate   Enter select   Esc cancel "@,
                Style::fg(theme::TEXT_SECONDARY).dim(),
            ),
        ],
    ]
}

/// Appends blank lines up to a number of lines.
fn fill(lines: &mut Vec<Line>, rows: usize)
    ensures
        span::lines_view(final(lines)@) == span::lines_view(old(lines)@) + Seq::new(
            text::missing(old(lines)@.len(), rows as nat),
            |i: int| span::blank(),
        ),
{
    let ghost before = span::lines_view(lines@);
    let ghost n = lines@.len();
    assert(span::lines_view(lines@) =~= before + Seq::new(0, |i: int| span::blank()));
    while lines.len() < rows
        invariant
            n == before.len(),
            n <= lines@.len(),
            n < rows ==> lines@.len() <= rows,
            n >= rows ==> lines@.len() == n,
            span::lines_view(lines@) == before + Seq::new(
                (lines@.len() - n) as nat,
                |i: int| span::blank(),
            ),
        decreases rows - lines@.len(),
    {
        push_line(lines, line1(raw("")));
        assert(span::lines_view(lines@) =~= before + Seq::new(
            (lines@.len() - n) as nat,
            |i: int| span::blank(),
        ));
    }
}

/// The lines of the thread picker, in `rows` rows. `scaled` holds, for each
/// conversation, its number of characters in thousands or millions.
pub fn thread_picker_lines(p: &ThreadPicker, scaled: &Vec<String>, rows: usize) -> (r: Vec<Line>)
    requires
        scaled@.len() == p@.threads.len(),
    ensures
        span::lines_view(r@) == picker_lines(p@, text::texts(scaled@), rows as nat),
{
    let ghost texts = text::texts(scaled@);
    let ghost entries = Seq::new(
        p@.threads.len(),
        |i: int| thread_line(p@.threads[i], texts[i], i == p@.selected),
    );
    let mut r: Vec<Line> = Vec::new();
    let mut i: usize = 0;
    assert(span::lines_view(r@) =~= entries.take(0));
    while i < p.threads.len()
        invariant
            i <= p.threads@.len(),
            scaled@.len() == p.threads@.len(),
            texts == text::texts(scaled@),
            entries == Seq::new(
                p@.threads.len(),
                |k: int| thread_line(p@.threads[k], texts[k], k == p@.selected),
            ),
            span::lines_view(r@) == entries.take(i as int),
        decreases p.threads@.len() - i,
    {
        let line = thread_entry(&p.threads[i], scaled[i].as_str(), i == p.selected);
        assert(line@ == entries[i as int]);
        push_line(&mut r, line);
        i = i + 1;
        assert(span::lines_view(r@) =~= entries.take(i as int));
    }
    assert(entries.take(i as int) =~= entries);
    assert(r@.len() == span::lines_view(r@).len());
    fill(&mut r, rows.saturating_sub(1));
    push_line(
        &mut r,
        line1(
            styled(
                " ↑↓ navigate   Enter select   Esc cancel ",
                Style::fg(theme::TEXT_SECONDARY).dim(),
            ),
        ),
    );
    assert(span::lines_view(r@) =~= picker_lines(p@, texts, rows as nat));
    r
}

// ── The completion popup ────────────────────────────────────────────────

/// The most commands that the completion popup shows.
pub const MAX_COMPLETIONS: usize = 8;

/// How many commands are shown.
pub open spec fn shown_count(matches: nat) -> nat {
    if matches < MAX_COMPLETIONS {
        matches
    } else {
        MAX_COMPLETIONS as nat
    }
}

/// The first command that is shown: the window slides with the selection.
pub open spec fn window_start(matches: nat, selected: nat) -> nat {
    let shown = shown_count(matches);
    let slid = (selected + 1 - shown) as nat;
    if selected < shown {
        0
    } else if slid <= matches - shown {
        slid
    } else {
        (matches - shown) as nat
    }
}

/// The entry of a command.
pub open spec fn completion_line(c: InfoView, selected: bool) -> Seq<SpanView> {
    seq![
        span::styled_view(
            if selected {
                theme::ICON_SELECTED@
            } else {
                "  "@
            },
            entry_style(selected),
        ),
        span::styled_view(text::padded_right(c.usage, 14, ' '), entry_style(selected)),
        span::styled_view(c.desc, Style::fg(theme::text_dim()).dim()),
    ]
}

fn completion_entry(c: &CommandInfo, selected: bool) -> (r: Line)
    ensures
        r@ == completion_line(c@, selected),
{
    let style = entry_style(selected);
    let marker = if selected {
        theme::ICON_SELECTED
    } else {
        "  "
    };
    line3(
        styled(marker, style),
        styled(text::pad_right(c.usage, 14).as_str(), style),
        styled(c.desc, Style::fg(theme::text_dim()).dim()),
    )
}

/// The lines of the completion popup.
pub open spec fn completion_lines(c: CompletionView) -> Seq<Seq<SpanView>> {
    let start = window_start(c.matches.len(), c.selected as nat);
    Seq::new(
        shown_count(c.matches.len()),
        |i: int| completion_line(c.matches[start + i], start + i == c.selected),
    )
}

/// Where the completion popup stands: directly above the input, at most
/// sixty columns wide, with a border around its lines.
pub open spec fn popup_above(input: Rect, matches: nat) -> Rect {
    let height = (shown_count(matches) + 2) as u16;
    Rect {
        x: input.x,
        y: text::missing(height as nat, input.y as nat) as u16,
        width: if input.width < 60 {
            input.width
        } else {
            60
        },
        height,
    }
}

impl SlashCompletionState {
    fn window(&self) -> (r: (usize, usize))
        ensures
            r.0 == window_start(self@.matches.len(), self@.selected as nat),
            r.1 == shown_count(self@.matches.len()),
            r.0 + r.1 <= self@.matches.len(),
    {
        let n: usize = self.matches.len();
        let shown: usize = if n < MAX_COMPLETIONS {
            n
        } else {
            MAX_COMPLETIONS
        };
        if self.selected < shown {
            return (0, shown);
        }
        let start: usize = if self.selected - shown >= n - shown {
            n - shown
        } else {
            self.selected - shown + 1
        };
        (start, shown)
    }

    /// Where the popup stands.
    pub fn area(&self, input: Rect) -> (r: Rect)
        ensures
            r == popup_above(input, self@.matches.len()),
    {
        let (_start, shown) = self.window();
        let height: u16 = shown as u16 + 2;
        Rect {
            x: input.x,
            y: input.y.saturating_sub(height),
            width: if input.width < 60 {
                input.width
            } else {
                60
            },
            height,
        }
    }

    /// The lines of the popup.
    pub fn lines(&self) -> (r: Vec<Line>)
        ensures
            span::lines_view(r@) == completion_lines(self@),
    {
        let ghost want = completion_lines(self@);
        let (start, shown) = self.window();
        let mut r: Vec<Line> = Vec::new();
        let mut i: usize = 0;
        assert(span::lines_view(r@) =~= want.take(0));
        while i < shown
            invariant
                i <= shown,
                start + shown <= self.matches@.len(),
                start == window_start(self@.matches.len(), self@.selected as nat),
                shown == shown_count(self@.matches.len()),
                want == completion_lines(self@),
                span::lines_view(r@) == want.take(i as int),
            decreases shown - i,
        {
            let line = completion_entry(&self.matches[start + i], start + i == self.selected);
            assert(line@ == want[i as int]);
            push_line(&mut r, line);
            i = i + 1;
            assert(span::lines_view(r@) =~= want.take(i as int));
        }
        assert(want.take(i as int) =~= want);
        r
    }
}

/// The selected command is always in view.
pub proof fn law_selected_completion_is_visible(matches: nat, selected: nat)
    requires
        selected < matches,
    ensures
        window_start(matches, selected) <= selected,
        selected < window_start(matches, selected) + shown_count(matches),
        window_start(matches, selected) + shown_count(matches) <= matches,
{
}

// ── The help ────────────────────────────────────────────────────────────

/// The rows of the help, its border included.
pub open spec fn help_rows(height: u16) -> nat {
    let room = text::missing(4, height as nat);
    if room < 35 {
        room
    } else {
        35
    }
}

/// The rows of the help, its border included.
pub fn help_height(height: u16) -> (r: u16)
    ensures
        r == help_rows(height),
{
    let room: u16 = height.saturating_sub(4);
    if room < 35 {
        room
    } else {
        35
    }
}

/// A heading of the help.
pub open spec fn section(title: Seq<char>) -> Seq<SpanView> {
    seq![span::styled_view(title, Style::fg(theme::ACCENT).bold())]
}

/// An entry of the help: what is typed, and what it does.
pub open spec fn help_entry(what: Seq<char>, does: Seq<char>) -> Seq<SpanView> {
    seq![
        span::styled_view("  "@ + text::padded_right(what, 16, ' '), Style::fg(theme::text_dim())),
        span::styled_view(does, theme::hint_style()),
    ]
}

fn help_line(what: &str, does: &str) -> (r: Line)
    ensures
        r@ == help_entry(what@, does@),
{
    let what = text::cat2("  ", text::pad_right(what, 16).as_str());
    line2(
        styled(what.as_str(), Style::fg(theme::text_dim())),
        styled(does, theme::hint_style()),
    )
}

fn heading_line(title: &str) -> (r: Line)
    ensures
        r@ == section(title@),
{
    line1(styled(title, Style::fg(theme::ACCENT).bold()))
}

/// The commands in the help.
pub open spec fn command_entries() -> Seq<Seq<SpanView>> {
    messages::command_table().map_values(|c: InfoView| help_entry(c.usage, c.desc))
}

/// The keys in the help. Where copying has a key of its own, cancelling gets
/// an entry too.
pub open spec fn key_entries(platform: Platform) -> Seq<Seq<SpanView>> {
    let mac = platform == Platform::MacOs;
    seq![
        help_entry("Enter"@, "send · inject hint while running"@),
        help_entry("Shift+Enter"@, "insert newline"@),
        help_entry("Tab / Right"@, "accept slash completion"@),
        help_entry("Up / Down"@, "input history · completion nav"@),
        help_entry("PgUp / PgDn"@, "scroll chat · mouse wheel works too"@),
        help_entry("Esc"@, "cancel generation · close popup · clear selection"@),
        help_entry(
            copy_shortcut_label(platform)@,
            if mac {
                "copy selected text"@
            } else {
                "copy selection · cancel generation"@
            },
        ),
        help_entry("Ctrl+D"@, "exit (empty input) · delete char forward"@),
        help_entry("Ctrl+R"@, "retry the last submission after a failure"@),
        help_entry("Ctrl+O"@, "toggle the trace panel"@),
        help_entry("? / F1"@, "toggle this help"@),
    ] + if mac {
        seq![help_entry(cancel_shortcut_label()@, "cancel generation"@)]
    } else {
        Seq::empty()
    }
}

/// The shell prefixes in the help.
pub open spec fn shell_entries() -> Seq<Seq<SpanView>> {
    seq![
        help_entry("!<cmd>"@, "run a shell command, share output with the agent"@),
        help_entry("!!text"@, "send a literal message starting with !"@),
    ]
}

/// The lines of the help.
pub open spec fn help_text(platform: Platform) -> Seq<Seq<SpanView>> {
    seq![section("Commands"@)] + command_entries() + seq![span::blank(), section("Keys"@)] + key_entries(
        platform,
    ) + seq![span::blank(), section("Shell"@)] + shell_entries()
}

fn push_commands(r: &mut Vec<Line>)
    ensures
        span::lines_view(final(r)@) == span::lines_view(old(r)@) + command_entries(),
{
    let ghost before = span::lines_view(r@);
    let ghost want = command_entries();
    let all = slash_commands();
    let mut i: usize = 0;
    assert(span::lines_view(r@) =~= before + want.take(0));
    while i < all.len()
        invariant
            i <= all@.len(),
            want == command_entries(),
            messages::infos_view(all@) == messages::command_table(),
            span::lines_view(r@) == before + want.take(i as int),
        decreases all@.len() - i,
    {
        assert(messages::infos_view(all@)[i as int] == all@[i as int]@);
        let line = help_line(all[i].usage, all[i].desc);
        assert(line@ == want[i as int]);
        push_line(r, line);
        i = i + 1;
        assert(span::lines_view(r@) =~= before + want.take(i as int));
    }
    assert(all@.len() == messages::infos_view(all@).len());
    assert(want.take(i as int) =~= want);
}

fn push_keys(r: &mut Vec<Line>, platform: Platform)
    ensures
        span::lines_view(final(r)@) == span::lines_view(old(r)@) + key_entries(platform),
{
    let ghost before = span::lines_view(r@);
    let mac = platform == Platform::MacOs;
    push_line(r, help_line("Enter", "send · inject hint while running"));
    push_line(r, help_line("Shift+Enter", "insert newline"));
    push_line(r, help_line("Tab / Right", "accept slash completion"));
    push_line(r, help_line("Up / Down", "input history · completion nav"));
    push_line(r, help_line("PgUp / PgDn", "scroll chat · mouse wheel works too"));
    push_line(r, help_line("Esc", "cancel generation · close popup · clear selection"));
    push_line(
        r,
        help_line(
            copy_shortcut_label(platform),
            if mac {
                "copy selected text"
            } else {
                "copy selection · cancel generation"
            },
        ),
    );
    push_line(r, help_line("Ctrl+D", "exit (empty input) · delete char forward"));
    push_line(r, help_line("Ctrl+R", "retry the last submission after a failure"));
    push_line(r, help_line("Ctrl+O", "toggle the trace panel"));
    push_line(r, help_line("? / F1", "toggle this help"));
    if mac {
        push_line(r, help_line(cancel_shortcut_label(), "cancel generation"));
    }
    assert(span::lines_view(r@) =~= before + key_entries(platform));
}

/// The lines of the help.
pub fn help_lines(platform: Platform) -> (r: Vec<Line>)
    ensures
        span::lines_view(r@) == help_text(platform),
{
    let mut r: Vec<Line> = Vec::new();
    push_line(&mut r, heading_line("Commands"));
    assert(span::lines_view(r@) =~= seq![section("Commands"@)]);
    push_commands(&mut r);
    let ghost commands = span::lines_view(r@);
    push_line(&mut r, line1(raw("")));
    push_line(&mut r, heading_line("Keys"));
    assert(span::lines_view(r@) =~= commands + seq![span::blank(), section("Keys"@)]);
    push_keys(&mut r, platform);
    let ghost keys = span::lines_view(r@);
    push_line(&mut r, line1(raw("")));
    push_line(&mut r, heading_line("Shell"));
    push_line(&mut r, help_line("!<cmd>", "run a shell command, share output with the agent"));
    push_line(&mut r, help_line("!!text", "send a literal message starting with !"));
    assert(span::lines_view(r@) =~= keys + seq![span::blank(), section("Shell"@)] + shell_entries());
    r
}

/// The help shows every slash command: its usage, and what it does.
pub proof fn law_help_shows_every_command(platform: Platform, i: int)
    requires
        0 <= i < messages::command_table().len(),
    ensures
        help_text(platform).contains(
            help_entry(messages::command_table()[i].usage, messages::command_table()[i].desc),
        ),
{
    assert(help_text(platform)[1 + i] == command_entries()[i]);
}

} // verus!
