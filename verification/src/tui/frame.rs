//! What is drawn around the chat: the layout, the titles and hints, the
//! status bar, and the overlays.

use vstd::prelude::*;
use crate::text;
use crate::tui::app::{self, App, AppView};
use crate::tui::input_view::{self, build_input_lines, InputMetrics};
use crate::tui::intervene;
use crate::tui::messages::{self, MessageView, SelectionState};
use crate::tui::span::{
    self, append_lines, copy_lines, line1, push_line, raw, styled, Line, SpanView,
};
use crate::tui::theme::{self, Color, Style};
use crate::tui::ui::{self, message_to_lines};
use crate::tui::width::{self, truncate_to_width};
use crate::tui::wrap::{self, wrap_to_width};

verus! {

// ── Layout ──────────────────────────────────────────────────────────────

/// The fewest rows of text that the input shows.
pub const MIN_INPUT_ROWS: u16 = 3;

/// The most rows of text that the input shows; beyond that it scrolls.
pub const MAX_INPUT_ROWS: u16 = 15;

/// The most rows that fit on a screen: the borders and the status bar are
/// never pushed off it.
pub open spec fn most_rows(height: u16) -> int {
    let room = if height >= 4 {
        height - 4
    } else {
        0
    };
    if room < MIN_INPUT_ROWS {
        MIN_INPUT_ROWS as int
    } else if room > MAX_INPUT_ROWS {
        MAX_INPUT_ROWS as int
    } else {
        room
    }
}

/// How many rows of text the input shows.
pub open spec fn shown_rows(rows: nat, height: u16) -> int {
    if rows < MIN_INPUT_ROWS {
        MIN_INPUT_ROWS as int
    } else if rows > most_rows(height) {
        most_rows(height)
    } else {
        rows as int
    }
}

/// How many rows of text the input shows, on a screen of a height.
pub fn input_rows(rows: usize, height: u16) -> (r: u16)
    ensures
        r == shown_rows(rows as nat, height),
{
    let room: u16 = if height >= 4 {
        height - 4
    } else {
        0
    };
    let most: u16 = if room < MIN_INPUT_ROWS {
        MIN_INPUT_ROWS
    } else if room > MAX_INPUT_ROWS {
        MAX_INPUT_ROWS
    } else {
        room
    };
    if rows < MIN_INPUT_ROWS as usize {
        MIN_INPUT_ROWS
    } else if rows > most as usize {
        most
    } else {
        rows as u16
    }
}

/// The first row of the chat that is visible: zero scrolled shows the end.
pub open spec fn first_row(total: nat, visible: nat, scrolled: nat) -> nat {
    if total >= visible + scrolled {
        (total - visible - scrolled) as nat
    } else {
        0
    }
}

/// The first row of the chat that is visible.
pub fn chat_scroll(total: usize, visible: usize, scrolled: usize) -> (r: usize)
    ensures
        r == first_row(total as nat, visible as nat, scrolled as nat),
{
    total.saturating_sub(visible).saturating_sub(scrolled)
}

/// The title of the chat.
pub open spec fn chat_title(title: Option<Seq<char>>) -> Seq<char> {
    " Chat — "@ + (match title {
        Some(t) => width::truncated(t, 40),
        None => "new"@,
    }) + " "@
}

/// The columns of a row of the chat that are selected: the first and the
/// last row of a selection are cut, the rows between are selected whole.
pub open spec fn selected_columns(s: SelectionState, row: nat, full: nat) -> Option<(nat, nat)> {
    let (start_line, start_col, end_line, end_col) = if s.is_forward() {
        (s.start_line, s.start_col, s.end_line, s.end_col)
    } else {
        (s.end_line, s.end_col, s.start_line, s.start_col)
    };
    if row < start_line || row > end_line {
        None
    } else {
        let from = if row == start_line {
            start_col as nat
        } else {
            0
        };
        let to = if row == end_line && end_col < full {
            end_col as nat
        } else {
            full
        };
        if from < to {
            Some((from, to))
        } else {
            None
        }
    }
}

/// The columns of a row of the chat that are selected.
pub fn highlight(s: &SelectionState, row: usize, full: usize) -> (r: Option<(usize, usize)>)
    ensures
        match r {
            Some((from, to)) => selected_columns(*s, row as nat, full as nat) == Some(
                (from as nat, to as nat),
            ),
            None => selected_columns(*s, row as nat, full as nat) is None,
        },
{
    let (start_line, start_col, end_line, end_col) = s.ordered_bounds();
    if row < start_line || row > end_line {
        return None;
    }
    let from: usize = if row == start_line {
        start_col
    } else {
        0
    };
    let to: usize = if row == end_line && end_col < full {
        end_col
    } else {
        full
    };
    if from < to {
        Some((from, to))
    } else {
        None
    }
}

// ── The chat ────────────────────────────────────────────────────────────

/// The lines of messages, one message after the other, before wrapping.
pub open spec fn raw_lines(
    ms: Seq<MessageView>,
    rendered: Seq<Seq<Seq<SpanView>>>,
    width: int,
    selection: Option<usize>,
    frame: int,
) -> Seq<Seq<SpanView>>
    decreases ms.len(),
{
    if ms.len() == 0 {
        Seq::empty()
    } else {
        raw_lines(ms.drop_last(), rendered, width, selection, frame) + ui::message_lines(
            ms.last(),
            rendered[ms.len() - 1],
            width,
            selection,
            frame,
        )
    }
}

/// What the markdown renderer made of each message.
pub open spec fn rendered_view(v: Seq<Vec<Line>>) -> Seq<Seq<Seq<SpanView>>> {
    v.map_values(|l: Vec<Line>| span::lines_view(l@))
}

/// The rows of the chat.
pub open spec fn chat_rows(a: AppView, rendered: Seq<Seq<Seq<SpanView>>>, width: u16) -> Seq<
    Seq<SpanView>,
> {
    wrap::wrapped(
        raw_lines(
            a.messages,
            rendered,
            width as int,
            a.intervene_selection,
            a.spinner_frame as int,
        ),
        wrap::display_cols(width as int),
    )
}

impl App {
    fn collect_lines(&self, rendered: &Vec<Vec<Line>>, width: u16) -> (r: Vec<Line>)
        requires
            rendered@.len() == self@.messages.len(),
        ensures
            span::lines_view(r@) == raw_lines(
                self@.messages,
                rendered_view(rendered@),
                width as int,
                self@.intervene_selection,
                self@.spinner_frame as int,
            ),
    {
        reveal(app::app_view);
        let ghost ms = self@.messages;
        let ghost all = rendered_view(rendered@);
        let mut r: Vec<Line> = Vec::new();
        let mut i: usize = 0;
        assert(ms.take(0) =~= Seq::<MessageView>::empty());
        assert(span::lines_view(r@) =~= Seq::<Seq<SpanView>>::empty());
        while i < self.messages.len()
            invariant
                i <= self.messages@.len(),
                rendered@.len() == self.messages@.len(),
                ms == messages::messages_view(self.messages@),
                all == rendered_view(rendered@),
                span::lines_view(r@) == raw_lines(
                    ms.take(i as int),
                    all,
                    width as int,
                    self.intervene_selection,
                    self.spinner_frame as int,
                ),
            decreases self.messages@.len() - i,
        {
            assert(ms.take(i + 1).drop_last() =~= ms.take(i as int));
            assert(ms.take(i + 1).last() == self.messages@[i as int]@);
            assert(all[i as int] == span::lines_view(rendered@[i as int]@));
            let lines = message_to_lines(
                &self.messages[i],
                copy_lines(&rendered[i]),
                width,
                self.intervene_selection,
                self.spinner_frame,
            );
            append_lines(&mut r, lines);
            i = i + 1;
        }
        assert(ms.take(i as int) =~= ms);
        r
    }

    /// The rows of the chat, and what they are remembered by for the mouse.
    /// `rendered` is what the markdown renderer made of each message.
    pub fn layout_chat(&mut self, rendered: &Vec<Vec<Line>>, width: u16, visible: usize) -> (r: Vec<
        Line,
    >)
        requires
            rendered@.len() == old(self)@.messages.len(),
        ensures
            span::lines_view(r@) == chat_rows(old(self)@, rendered_view(rendered@), width),
            final(self)@ == (AppView {
                total_rendered_lines: r@.len() as usize,
                visible_chat_height: visible,
                ..old(self)@
            }),
            r@.len() <= usize::MAX,
    {
        let lines = self.collect_lines(rendered, width);
        let rows = wrap_to_width(lines, width);
        self.remember_chat(rows.len(), visible);
        rows
    }

    fn remember_chat(&mut self, total: usize, visible: usize)
        ensures
            final(self)@ == (AppView {
                total_rendered_lines: total,
                visible_chat_height: visible,
                ..old(self)@
            }),
    {
        reveal(app::app_view);
        self.total_rendered_lines = total;
        self.visible_chat_height = visible;
    }

    /// The title of the chat: the name of the conversation, cut to fit.
    pub fn chat_title(&self) -> (r: String)
        ensures
            r@ == chat_title(self@.conversation_title),
    {
        reveal(app::app_view);
        let name = match &self.conversation_title {
            Some(t) => truncate_to_width(t.as_str(), 40),
            None => "new".to_owned(),
        };
        text::cat3(" Chat — ", name.as_str(), " ")
    }
}

// ── The input ───────────────────────────────────────────────────────────

/// What the input is for.
#[derive(Clone, Copy, Debug, PartialEq, Eq, Structural)]
pub enum InputMode {
    /// An answer to an intervention is written.
    Answer,
    /// An option of an intervention is chosen.
    Choose,
    /// A shell command awaits confirmation.
    Confirm,
    /// Plan mode, while the agent runs.
    PlanInject,
    /// Plan mode.
    Plan,
    /// The agent runs.
    Inject,
    Idle,
}

/// What the input is for: an intervention comes first, then a confirmation,
/// plan mode, and the running agent.
pub open spec fn input_mode(a: AppView) -> InputMode {
    if intervene::last_pending(a.messages) >= 0 {
        if a.intervene_text_mode {
            InputMode::Answer
        } else {
            InputMode::Choose
        }
    } else if a.pending_shell_confirm is Some {
        InputMode::Confirm
    } else if a.plan_active {
        if a.streaming {
            InputMode::PlanInject
        } else {
            InputMode::Plan
        }
    } else if a.streaming {
        InputMode::Inject
    } else {
        InputMode::Idle
    }
}

/// The title of the input.
pub open spec fn input_title(mode: InputMode, frame: int) -> Seq<char> {
    match mode {
        InputMode::Answer => " Answer "@,
        InputMode::Choose => " Choose "@,
        InputMode::Confirm => " Confirm Shell "@,
        InputMode::PlanInject => " [PLAN] "@ + theme::spinner(frame) + " Inject "@,
        InputMode::Plan => " [PLAN] Input "@,
        InputMode::Inject => " "@ + theme::spinner(frame) + " Inject "@,
        InputMode::Idle => " Input "@,
    }
}

/// The colour of the border of the input.
#[verifier::allow_in_spec]
pub fn input_border(mode: InputMode) -> Color
    returns
        (match mode {
            InputMode::Answer => theme::BORDER_CHOOSE,
            InputMode::Choose => theme::BORDER_CHOOSE,
            InputMode::Confirm => theme::BORDER_CONFIRM,
            InputMode::PlanInject => theme::BORDER_PLAN,
            InputMode::Plan => theme::BORDER_PLAN,
            InputMode::Inject => theme::BORDER_INJECT,
            InputMode::Idle => theme::BORDER_INPUT,
        }),
{
    match mode {
        InputMode::Answer => theme::BORDER_CHOOSE,
        InputMode::Choose => theme::BORDER_CHOOSE,
        InputMode::Confirm => theme::BORDER_CONFIRM,
        InputMode::PlanInject => theme::BORDER_PLAN,
        InputMode::Plan => theme::BORDER_PLAN,
        InputMode::Inject => theme::BORDER_INJECT,
        InputMode::Idle => theme::BORDER_INPUT,
    }
}

/// The hint that stands in the input in place of its text.
pub open spec fn input_hint(a: AppView) -> Option<Seq<char>> {
    let pending = intervene::last_pending(a.messages) >= 0;
    if a.pending_shell_confirm is Some {
        Some(" y/Enter run  ·  n/Esc cancel"@)
    } else if a.input.len() > 0 {
        None
    } else if pending && a.intervene_text_mode {
        Some(" Type your response and press Enter. Esc to go back."@)
    } else if pending {
        Some(" ↑↓ to navigate  ·  Enter to select  ·  Esc to cancel"@)
    } else if a.streaming {
        Some(" Type to inject a hint while the agent is running. Enter to send."@)
    } else {
        Some(" Type a message and press Enter. Shift+Enter for newline. /help for commands."@)
    }
}

/// How the cursor is drawn.
pub open spec fn cursor_style(streaming: bool) -> Style {
    if streaming {
        Style::fg(theme::TEXT_PRIMARY).on(theme::TEXT_SECONDARY)
    } else {
        Style::fg(theme::CURSOR_FG).on(theme::TEXT_PRIMARY)
    }
}

/// The rows of the input: a hint, or its text with the cursor.
pub open spec fn input_lines(a: AppView, width: u16) -> Seq<Seq<SpanView>> {
    match input_hint(a) {
        Some(hint) => seq![
            seq![span::styled_view(" "@, Style::plain())],
            seq![span::styled_view(hint, theme::hint_style())],
        ],
        None => input_view::input_rows(
            a.input,
            input_view::cursor_pos(a.input, a.input_cursor),
            cursor_style(a.streaming),
            wrap::display_cols(width as int),
        ),
    }
}

impl App {
    /// What the input is for.
    pub fn input_mode(&self) -> (r: InputMode)
        ensures
            r == input_mode(self@),
    {
        let pending = self.has_pending_intervene();
        reveal(app::app_view);
        if pending {
            if self.intervene_text_mode {
                InputMode::Answer
            } else {
                InputMode::Choose
            }
        } else if self.pending_shell_confirm.is_some() {
            InputMode::Confirm
        } else if self.plan_active {
            if self.streaming {
                InputMode::PlanInject
            } else {
                InputMode::Plan
            }
        } else if self.streaming {
            InputMode::Inject
        } else {
            InputMode::Idle
        }
    }

    /// The title of the input.
    pub fn input_title(&self) -> (r: String)
        ensures
            r@ == input_title(input_mode(self@), self@.spinner_frame as int),
    {
        let mode = self.input_mode();
        reveal(app::app_view);
        let spinner = theme::spinner_frame(self.spinner_frame);
        match mode {
            InputMode::Answer => " Answer ".to_owned(),
            InputMode::Choose => " Choose ".to_owned(),
            InputMode::Confirm => " Confirm Shell ".to_owned(),
            InputMode::PlanInject => text::cat3(" [PLAN] ", spinner, " Inject "),
            InputMode::Plan => " [PLAN] Input ".to_owned(),
            InputMode::Inject => text::cat3(" ", spinner, " Inject "),
            InputMode::Idle => " Input ".to_owned(),
        }
    }

    fn input_hint(&self) -> (r: Option<&'static str>)
        ensures
            match r {
                Some(s) => input_hint(self@) == Some(s@),
                None => input_hint(self@) is None,
            },
    {
        let pending = self.has_pending_intervene();
        reveal(app::app_view);
        if self.pending_shell_confirm.is_some() {
            Some(" y/Enter run  ·  n/Esc cancel")
        } else if !self.input.as_str().is_empty() {
            None
        } else if pending && self.intervene_text_mode {
            Some(" Type your response and press Enter. Esc to go back.")
        } else if pending {
            Some(" ↑↓ to navigate  ·  Enter to select  ·  Esc to cancel")
        } else if self.streaming {
            Some(" Type to inject a hint while the agent is running. Enter to send.")
        } else {
            Some(" Type a message and press Enter. Shift+Enter for newline. /help for commands.")
        }
    }

    /// The rows of the input, for a text of `width` columns.
    pub fn input_lines(&self, width: u16) -> (r: Vec<Line>)
        requires
            input_view::shows_cursor(self@.input, self@.input_cursor),
        ensures
            span::lines_view(r@) == input_lines(self@, width),
    {
        match self.input_hint() {
            Some(hint) => {
                let mut v: Vec<Line> = Vec::new();
                push_line(&mut v, line1(raw(" ")));
                push_line(&mut v, line1(styled(hint, theme::hint_style())));
                assert(span::lines_view(v@) =~= input_lines(self@, width));
                v
            },
            None => {
                reveal(app::app_view);
                let style = if self.streaming {
                    Style::fg(theme::TEXT_PRIMARY).on(theme::TEXT_SECONDARY)
                } else {
                    Style::fg(theme::CURSOR_FG).on(theme::TEXT_PRIMARY)
                };
                build_input_lines(self.input.as_str(), self.input_cursor, style, width)
            },
        }
    }

    /// The layout of the input, for a text of `width` columns.
    pub fn measure_input(&self, width: u16) -> (r: InputMetrics)
        requires
            input_view::shows_cursor(self@.input, self@.input_cursor),
        ensures
            ({
                let m = input_view::measured(
                    self@.input,
                    input_view::cursor_pos(self@.input, self@.input_cursor),
                    wrap::display_cols(width as int),
                );
                &&& r.rows == text::capped(m.0)
                &&& r.cursor_row == text::capped(input_view::drawn_at(m).0)
                &&& r.cursor_col == text::capped(input_view::drawn_at(m).1)
            }),
    {
        reveal(app::app_view);
        input_view::input_metrics(self.input.as_str(), self.input_cursor, width)
    }
}

} // verus!
