//! Scrolling, and selecting text with the mouse.

use vstd::prelude::*;
use crate::text;
use crate::tui::app::{self, App, AppView, Rect};
use crate::tui::messages::{self, CallOrigin, ChatMessage, MessageView, SelectionState,
    ToolCallState, ToolCallStateView};
use crate::tui::ui;
use crate::tui::wrap;

verus! {

// ── Copying a selection ─────────────────────────────────────────────────

/// The text of a message, for the clipboard.
pub open spec fn copied_text(m: MessageView) -> Seq<char> {
    match m {
        MessageView::User { content, .. } => content,
        MessageView::Assistant { content, .. } => content,
        MessageView::Reasoning { content, .. } => content,
        MessageView::ToolCall { name, args, state, origin, .. } => {
            match state {
                ToolCallStateView::Running => if origin == CallOrigin::User {
                    "$ "@ + args
                } else {
                    name + " "@ + args
                },
                ToolCallStateView::Complete(output) => if origin == CallOrigin::User {
                    "$ "@ + args + "\n"@ + output
                } else {
                    name + " "@ + args + "\n"@ + output
                },
                ToolCallStateView::Rejected(reason) => name + " "@ + args + "\nRejected: "@
                    + reason,
                ToolCallStateView::Error(error) => name + " "@ + args + "\nError: "@ + error,
            }
        },
        MessageView::System { content, .. } => content,
        MessageView::Welcome { .. } => Seq::empty(),
        MessageView::Intervene {
            title,
            description,
            options,
            responded,
            chosen,
            custom_text,
            ..
        } => if responded {
            title + ": "@ + ui::answer_summary(options, chosen, custom_text)
        } else {
            title + "\n"@ + description + "\n["@ + text::joined(options, " / "@) + "]"@
        },
        MessageView::Error { content, .. } => content,
    }
}

/// The text of a message, for the clipboard.
pub fn copied_text_of(m: &ChatMessage) -> (r: String)
    ensures
        r@ == copied_text(m@),
{
    match m {
        ChatMessage::User { content, .. } => content.clone(),
        ChatMessage::Assistant { content, .. } => content.clone(),
        ChatMessage::Reasoning { content, .. } => content.clone(),
        ChatMessage::ToolCall { name, args, state, origin, .. } => {
            match state {
                ToolCallState::Running => {
                    if *origin == CallOrigin::User {
                        text::cat2("$ ", args.as_str())
                    } else {
                        text::cat3(name.as_str(), " ", args.as_str())
                    }
                },
                ToolCallState::Complete(output) => {
                    if *origin == CallOrigin::User {
                        text::cat4("$ ", args.as_str(), "\n", output.as_str())
                    } else {
                        text::cat5(name.as_str(), " ", args.as_str(), "\n", output.as_str())
                    }
                },
                ToolCallState::Rejected(reason) => {
                    text::cat5(name.as_str(), " ", args.as_str(), "\nRejected: ", reason.as_str())
                },
                ToolCallState::Error(error) => {
                    text::cat5(name.as_str(), " ", args.as_str(), "\nError: ", error.as_str())
                },
            }
        },
        ChatMessage::System { content, .. } => content.clone(),
        ChatMessage::Welcome { .. } => String::new(),
        ChatMessage::Intervene {
            title,
            description,
            options,
            responded,
            chosen,
            custom_text,
            ..
        } => {
            if *responded {
                let summary = ui::answer_summary_of(options, *chosen, custom_text);
                text::cat3(title.as_str(), ": ", summary.as_str())
            } else {
                let opts = text::join(options, " / ");
                text::cat6(
                    title.as_str(),
                    "\n",
                    description.as_str(),
                    "\n[",
                    opts.as_str(),
                    "]",
                )
            }
        },
        ChatMessage::Error { content, .. } => content.clone(),
    }
}

/// The texts of the messages that have a row in `start..=end`, out of those
/// from `i` on; `offset` is the first row of the message `i`. Empty texts
/// are left out.
pub open spec fn selected_texts(
    ms: Seq<MessageView>,
    counts: Seq<usize>,
    i: int,
    offset: nat,
    start: nat,
    end: nat,
) -> Seq<Seq<char>>
    decreases ms.len() - i,
{
    if i < 0 || i >= ms.len() || i >= counts.len() {
        Seq::empty()
    } else {
        let next = offset + counts[i] as nat;
        let t = copied_text(ms[i]);
        let rest = selected_texts(ms, counts, i + 1, next, start, end);
        if next > start && offset <= end && t.len() > 0 {
            seq![t] + rest
        } else {
            rest
        }
    }
}

/// The text of a selection that is not being dragged any more.
pub open spec fn selection_text(a: AppView) -> Seq<char> {
    match a.selection {
        Some(sel) => if sel.dragging {
            Seq::empty()
        } else {
            let start = if sel.start_line < sel.end_line {
                sel.start_line as nat
            } else {
                sel.end_line as nat
            };
            let end = if sel.start_line < sel.end_line {
                sel.end_line as nat
            } else {
                sel.start_line as nat
            };
            text::joined(selected_texts(a.messages, a.line_counts, 0, 0, start, end), "\n"@)
        },
        None => Seq::empty(),
    }
}

proof fn lemma_nothing_behind(
    ms: Seq<MessageView>,
    counts: Seq<usize>,
    i: int,
    offset: nat,
    start: nat,
    end: nat,
)
    requires
        offset > end,
    ensures
        selected_texts(ms, counts, i, offset, start, end) == Seq::<Seq<char>>::empty(),
    decreases ms.len() - i,
{
    if 0 <= i < ms.len() && i < counts.len() {
        lemma_nothing_behind(ms, counts, i + 1, offset + counts[i] as nat, start, end);
    }
}

impl App {
    /// The text of the selection: the messages that it touches, one after
    /// the other. Nothing while the mouse button is held.
    pub fn get_selection_text(&self) -> (r: String)
        ensures
            r@ == selection_text(self@),
    {
        reveal(app::app_view);
        let sel: SelectionState = match self.selection {
            Some(s) => s,
            None => {
                return String::new();
            },
        };
        if sel.dragging {
            return String::new();
        }
        let start: usize = if sel.start_line < sel.end_line {
            sel.start_line
        } else {
            sel.end_line
        };
        let end: usize = if sel.start_line < sel.end_line {
            sel.end_line
        } else {
            sel.start_line
        };
        let ghost all = selected_texts(
            self@.messages,
            self@.line_counts,
            0,
            0,
            start as nat,
            end as nat,
        );
        assert(selection_text(self@) == text::joined(all, "\n"@));
        let mut texts: Vec<String> = Vec::new();
        let mut offset: usize = 0;
        let mut i: usize = 0;
        assert(text::texts(texts@) + all =~= all);
        while i < self.messages.len() && i < self.line_counts.len()
            invariant
                i <= self.messages@.len(),
                i <= self.line_counts@.len(),
                self@.messages == messages::messages_view(self.messages@),
                self@.line_counts == self.line_counts@,
                selection_text(self@) == text::joined(all, "\n"@),
                text::texts(texts@) + selected_texts(
                    self@.messages,
                    self@.line_counts,
                    i as int,
                    offset as nat,
                    start as nat,
                    end as nat,
                ) == all,
            decreases self.messages@.len() - i,
        {
            assert(self@.messages[i as int] == self.messages@[i as int]@);
            let count: usize = self.line_counts[i];
            let ghost before = text::texts(texts@);
            let ghost rest = selected_texts(
                self@.messages,
                self@.line_counts,
                i + 1,
                (offset + count) as nat,
                start as nat,
                end as nat,
            );
            let behind = count > usize::MAX - offset;
            if (behind || offset + count > start) && offset <= end {
                let t = copied_text_of(&self.messages[i]);
                if !t.as_str().is_empty() {
                    text::push_text(&mut texts, t);
                    assert(text::texts(texts@) + rest =~= before + (seq![t@] + rest));
                }
            }
            if behind {
                proof {
                    lemma_nothing_behind(
                        self@.messages,
                        self@.line_counts,
                        i + 1,
                        (offset + count) as nat,
                        start as nat,
                        end as nat,
                    );
                    assert(text::texts(texts@) + rest =~= text::texts(texts@));
                }
                return text::join(&texts, "\n");
            }
            offset = offset + count;
            i = i + 1;
        }
        assert(text::texts(texts@) + Seq::<Seq<char>>::empty() =~= text::texts(texts@));
        text::join(&texts, "\n")
    }

    /// Drops the selection.
    pub fn clear_selection(&mut self)
        ensures
            final(self)@ == (AppView { selection: None, ..old(self)@ }),
    {
        reveal(app::app_view);
        self.selection = None;
    }
}

// ── The mouse ───────────────────────────────────────────────────────────

/// What the mouse did.
#[derive(Clone, Copy, Debug, PartialEq, Eq, Structural)]
pub enum MouseKind {
    DownLeft,
    DragLeft,
    UpLeft,
    ScrollUp,
    ScrollDown,
    Other,
}

/// An event of the mouse, at a place on the screen.
#[derive(Clone, Copy, Debug, PartialEq, Eq, Structural)]
pub struct MouseEvent {
    pub kind: MouseKind,
    pub column: u16,
    pub row: u16,
}

/// `a - b`, or zero.
pub open spec fn minus(a: int, b: int) -> int {
    if a > b {
        a - b
    } else {
        0
    }
}

/// `a + b`, or the largest coordinate.
pub open spec fn plus(a: int, b: int) -> int {
    if a + b <= 65535 {
        a + b
    } else {
        65535
    }
}

/// The lesser one.
pub open spec fn least(a: int, b: int) -> int {
    if a < b {
        a
    } else {
        b
    }
}

/// The inside of a bordered area.
pub open spec fn inner(area: Rect) -> Rect {
    Rect {
        x: least(plus(area.x as int, 1), plus(area.x as int, area.width as int)) as u16,
        y: least(plus(area.y as int, 1), plus(area.y as int, area.height as int)) as u16,
        width: minus(area.width as int, 2) as u16,
        height: minus(area.height as int, 2) as u16,
    }
}

/// The inside of a bordered area.
pub fn inner_of(area: Rect) -> (r: Rect)
    ensures
        r == inner(area),
{
    Rect {
        x: if area.width > 0 && area.x < 65535 {
            area.x + 1
        } else {
            area.x
        },
        y: if area.height > 0 && area.y < 65535 {
            area.y + 1
        } else {
            area.y
        },
        width: if area.width > 2 {
            area.width - 2
        } else {
            0
        },
        height: if area.height > 2 {
            area.height - 2
        } else {
            0
        },
    }
}

/// Whether a place on the screen is inside the border of the chat.
pub open spec fn in_chat(a: AppView, col: int, row: int) -> bool {
    let i = inner(a.chat_area);
    i.x <= col < i.x + i.width && i.y <= row < i.y + i.height
}

/// The line of the chat at the top of the view.
pub open spec fn top_line(a: AppView) -> int {
    minus(
        minus(a.total_rendered_lines as int, a.visible_chat_height as int),
        a.scroll_offset as int,
    )
}

/// The line of the chat that is shown at a row of the screen.
pub open spec fn line_at(a: AppView, row: int) -> nat {
    text::capped((top_line(a) + minus(row, inner(a.chat_area).y as int)) as nat)
}

/// The display column of the chat at a column of the screen.
pub open spec fn col_at(a: AppView, col: int) -> int {
    minus(col, inner(a.chat_area).x as int)
}

/// How far the wheel scrolls.
pub const WHEEL_STEP: usize = 4;

/// The state after scrolling up by `n` rows.
pub open spec fn scrolled_up(a: AppView, n: nat) -> AppView {
    AppView {
        scroll_offset: text::capped(a.scroll_offset as nat + n) as usize,
        auto_scroll: false,
        ..a
    }
}

/// The state after scrolling down by `n` rows; at the bottom new content is
/// followed again.
pub open spec fn scrolled_down(a: AppView, n: nat) -> AppView {
    let offset = minus(a.scroll_offset as int, n as int) as usize;
    AppView {
        scroll_offset: offset,
        auto_scroll: if offset == 0 {
            true
        } else {
            a.auto_scroll
        },
        ..a
    }
}

/// A selection once the mouse button is released: the upper line first.
pub open spec fn released(s: SelectionState) -> SelectionState {
    if s.start_line > s.end_line {
        SelectionState {
            start_line: s.end_line,
            start_col: s.end_col,
            end_line: s.start_line,
            end_col: s.start_col,
            dragging: false,
        }
    } else {
        SelectionState { dragging: false, ..s }
    }
}

/// What an event of the mouse does.
pub open spec fn on_mouse(a: AppView, e: MouseEvent) -> AppView {
    let line = line_at(a, e.row as int) as usize;
    let col = col_at(a, e.column as int) as usize;
    match e.kind {
        MouseKind::DownLeft => AppView {
            selection: if in_chat(a, e.column as int, e.row as int) {
                Some(
                    SelectionState {
                        start_line: line,
                        start_col: col,
                        end_line: line,
                        end_col: col,
                        dragging: true,
                    },
                )
            } else {
                None
            },
            ..a
        },
        MouseKind::DragLeft => match a.selection {
            Some(s) => if s.dragging {
                AppView {
                    selection: Some(SelectionState { end_line: line, end_col: col, ..s }),
                    ..a
                }
            } else {
                a
            },
            None => a,
        },
        MouseKind::UpLeft => match a.selection {
            Some(s) => AppView { selection: Some(released(s)), ..a },
            None => a,
        },
        MouseKind::ScrollUp => scrolled_up(a, WHEEL_STEP as nat),
        MouseKind::ScrollDown => scrolled_down(a, WHEEL_STEP as nat),
        MouseKind::Other => a,
    }
}

impl App {
    /// Whether a place on the screen is inside the border of the chat.
    pub fn is_in_chat_area(&self, col: u16, row: u16) -> (r: bool)
        ensures
            r == in_chat(self@, col as int, row as int),
    {
        reveal(app::app_view);
        let i = inner_of(self.chat_area);
        col >= i.x && (col as u32) < i.x as u32 + i.width as u32 && row >= i.y && (row as u32)
            < i.y as u32 + i.height as u32
    }

    /// The line of the chat that is shown at a row of the screen.
    pub fn screen_to_line(&self, row: u16) -> (r: usize)
        ensures
            r == line_at(self@, row as int),
    {
        reveal(app::app_view);
        let i = inner_of(self.chat_area);
        let visible_row: usize = if row > i.y {
            (row - i.y) as usize
        } else {
            0
        };
        let max_scroll: usize = if self.total_rendered_lines > self.visible_chat_height {
            self.total_rendered_lines - self.visible_chat_height
        } else {
            0
        };
        let scroll: usize = if max_scroll > self.scroll_offset {
            max_scroll - self.scroll_offset
        } else {
            0
        };
        text::capped_add(scroll, visible_row)
    }

    fn screen_to_col(&self, col: u16) -> (r: usize)
        ensures
            r == col_at(self@, col as int),
    {
        reveal(app::app_view);
        let i = inner_of(self.chat_area);
        if col > i.x {
            (col - i.x) as usize
        } else {
            0
        }
    }

    /// Scrolls up by `n` rows.
    pub fn scroll_up(&mut self, n: usize)
        ensures
            final(self)@ == scrolled_up(old(self)@, n as nat),
    {
        reveal(app::app_view);
        self.scroll_offset = text::capped_add(self.scroll_offset, n);
        self.auto_scroll = false;
    }

    /// Scrolls down by `n` rows.
    pub fn scroll_down(&mut self, n: usize)
        ensures
            final(self)@ == scrolled_down(old(self)@, n as nat),
    {
        reveal(app::app_view);
        self.scroll_offset = if self.scroll_offset > n {
            self.scroll_offset - n
        } else {
            0
        };
        if self.scroll_offset == 0 {
            self.auto_scroll = true;
        }
    }

    fn set_selection(&mut self, selection: Option<SelectionState>)
        ensures
            final(self)@ == (AppView { selection, ..old(self)@ }),
    {
        reveal(app::app_view);
        self.selection = selection;
    }

    fn the_selection(&self) -> (r: Option<SelectionState>)
        ensures
            r == self@.selection,
    {
        reveal(app::app_view);
        self.selection
    }

    /// Selects text or scrolls, as the mouse says.
    pub fn handle_mouse_event(&mut self, event: &MouseEvent)
        ensures
            final(self)@ == on_mouse(old(self)@, *event),
            old(self)@.wf() ==> final(self)@.wf(),
    {
        let line: usize = self.screen_to_line(event.row);
        let col: usize = self.screen_to_col(event.column);
        match event.kind {
            MouseKind::DownLeft => {
                if self.is_in_chat_area(event.column, event.row) {
                    self.set_selection(
                        Some(
                            SelectionState {
                                start_line: line,
                                start_col: col,
                                end_line: line,
                                end_col: col,
                                dragging: true,
                            },
                        ),
                    );
                } else {
                    self.set_selection(None);
                }
            },
            MouseKind::DragLeft => {
                match self.the_selection() {
                    Some(s) => {
                        if s.dragging {
                            self.set_selection(
                                Some(SelectionState { end_line: line, end_col: col, ..s }),
                            );
                        }
                    },
                    None => {},
                }
            },
            MouseKind::UpLeft => {
                match self.the_selection() {
                    Some(s) => {
                        let done = if s.start_line > s.end_line {
                            SelectionState {
                                start_line: s.end_line,
                                start_col: s.end_col,
                                end_line: s.start_line,
                                end_col: s.start_col,
                                dragging: false,
                            }
                        } else {
                            SelectionState { dragging: false, ..s }
                        };
                        self.set_selection(Some(done));
                    },
                    None => {},
                }
            },
            MouseKind::ScrollUp => {
                self.scroll_up(WHEEL_STEP);
            },
            MouseKind::ScrollDown => {
                self.scroll_down(WHEEL_STEP);
            },
            MouseKind::Other => {},
        }
    }
}

// ── Rows ────────────────────────────────────────────────────────────────

/// The estimated rows of each message at a width.
pub open spec fn estimates(ms: Seq<MessageView>, width: int) -> Seq<usize> {
    Seq::new(ms.len(), |i: int| text::capped(wrap::estimated_rows(ms[i], width)) as usize)
}

/// The sum of the rows.
pub open spec fn sum_rows(counts: Seq<usize>) -> nat
    decreases counts.len(),
{
    if counts.len() == 0 {
        0
    } else {
        sum_rows(counts.drop_last()) + counts.last() as nat
    }
}

/// The input's first visible row once the cursor is in view: a window of
/// `visible` rows is moved no further than it takes.
pub open spec fn input_window(offset: nat, cursor: nat, visible: nat) -> nat {
    if cursor < offset {
        cursor
    } else if cursor >= offset + visible {
        minus(cursor as int, minus(visible as int, 1)) as nat
    } else {
        offset
    }
}

impl App {
    /// Estimates the rows of each message at the given width.
    pub fn rebuild_line_counts(&mut self, area_width: u16)
        ensures
            final(self)@ == (AppView {
                line_counts: estimates(old(self)@.messages, area_width as int),
                ..old(self)@
            }),
    {
        reveal(app::app_view);
        let ghost want = estimates(self@.messages, area_width as int);
        let mut counts: Vec<usize> = Vec::new();
        let mut i: usize = 0;
        while i < self.messages.len()
            invariant
                i <= self.messages@.len(),
                want == estimates(messages::messages_view(self.messages@), area_width as int),
                counts@ == want.take(i as int),
            decreases self.messages@.len() - i,
        {
            counts.push(wrap::estimate_lines(&self.messages[i], area_width));
            i = i + 1;
            assert(counts@ =~= want.take(i as int));
        }
        assert(want.take(i as int) =~= want);
        self.line_counts = counts;
    }

    /// The estimated rows of all messages.
    pub fn total_lines(&self) -> (r: usize)
        ensures
            r == text::capped(sum_rows(self@.line_counts)),
    {
        reveal(app::app_view);
        let mut total: usize = 0;
        let mut i: usize = 0;
        assert(self.line_counts@.take(0) =~= Seq::<usize>::empty());
        while i < self.line_counts.len()
            invariant
                i <= self.line_counts@.len(),
                total == text::capped(sum_rows(self.line_counts@.take(i as int))),
            decreases self.line_counts@.len() - i,
        {
            assert(self.line_counts@.take(i + 1).drop_last() =~= self.line_counts@.take(i as int));
            total = text::capped_add(total, self.line_counts[i]);
            i = i + 1;
        }
        assert(self.line_counts@.take(i as int) =~= self.line_counts@);
        total
    }

    /// Moves the window of the input so that the cursor's row is in it.
    pub fn update_input_scroll_offset(&mut self, cursor_visual_row: u16, visible_rows: u16)
        ensures
            final(self)@ == (AppView {
                input_scroll_offset: input_window(
                    old(self)@.input_scroll_offset as nat,
                    cursor_visual_row as nat,
                    visible_rows as nat,
                ) as usize,
                ..old(self)@
            }),
    {
        reveal(app::app_view);
        let cursor: usize = cursor_visual_row as usize;
        let visible: usize = visible_rows as usize;
        if cursor < self.input_scroll_offset {
            self.input_scroll_offset = cursor;
        } else if cursor - self.input_scroll_offset >= visible {
            let back: usize = if visible > 1 {
                visible - 1
            } else {
                0
            };
            self.input_scroll_offset = if cursor > back {
                cursor - back
            } else {
                0
            };
        }
    }
}

// ── Laws ────────────────────────────────────────────────────────────────

/// The cursor's row is in the window of the input, whatever it was before.
pub proof fn law_cursor_stays_in_view(offset: nat, cursor: nat, visible: nat)
    requires
        visible > 0,
    ensures
        input_window(offset, cursor, visible) <= cursor < input_window(offset, cursor, visible)
            + visible,
{
}

/// The window does not move while the cursor is in it.
pub proof fn law_window_rests(offset: nat, cursor: nat, visible: nat)
    requires
        offset <= cursor < offset + visible,
    ensures
        input_window(offset, cursor, visible) == offset,
{
}

/// A released selection has its upper line first, and is not dragged.
pub proof fn law_release_normalizes(s: SelectionState)
    ensures
        released(s).start_line <= released(s).end_line,
        !released(s).dragging,
{
}

/// A turn of the wheel is undone by a turn back, unless a limit was met.
pub proof fn law_scrolling_back(a: AppView, n: nat)
    requires
        a.scroll_offset + n <= usize::MAX,
    ensures
        scrolled_down(scrolled_up(a, n), n).scroll_offset == a.scroll_offset,
{
}

/// Scrolled to the bottom, new content is followed again.
pub proof fn law_bottom_follows(a: AppView, n: nat)
    requires
        a.scroll_offset <= n,
    ensures
        scrolled_down(a, n).auto_scroll,
        scrolled_down(a, n).scroll_offset == 0,
{
}

} // verus!
