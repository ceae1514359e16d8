//! Events of the terminal: which are a paste, and where each one goes.

use vstd::prelude::*;
use crate::text;
use crate::tui::app::{self, App, AppView};
use crate::tui::input;
use crate::tui::keyboard::{KeyCode, KeyEvent, KeyModifiers};
use crate::tui::messages::{self, CommandView, TuiCommand};
use crate::tui::selection::{self, MouseEvent};
use crate::tui::slash::{Facts, FactsView};
use crate::tui::theme;

verus! {

/// How a key was used.
#[derive(Clone, Copy, Debug, PartialEq, Eq, Structural)]
pub enum KeyKind {
    Press,
    Repeat,
    Release,
}

/// An event of the terminal.
#[derive(Clone, Debug)]
pub enum TerminalEvent {
    Key { key: KeyEvent, kind: KeyKind },
    Mouse(MouseEvent),
    Resize,
    /// A paste that the terminal marked as one.
    Paste(String),
    Other,
}

/// What an event of the terminal holds.
pub enum TerminalView {
    Key { key: KeyEvent, kind: KeyKind },
    Mouse(MouseEvent),
    Resize,
    Paste(Seq<char>),
    Other,
}

impl View for TerminalEvent {
    type V = TerminalView;

    open spec fn view(&self) -> TerminalView {
        match self {
            TerminalEvent::Key { key, kind } => TerminalView::Key { key: *key, kind: *kind },
            TerminalEvent::Mouse(m) => TerminalView::Mouse(*m),
            TerminalEvent::Resize => TerminalView::Resize,
            TerminalEvent::Paste(s) => TerminalView::Paste(s@),
            TerminalEvent::Other => TerminalView::Other,
        }
    }
}

/// What each event of a batch holds.
pub open spec fn batch_view(v: Seq<TerminalEvent>) -> Seq<TerminalView> {
    v.map_values(|e: TerminalEvent| e@)
}

// ── Paste bursts ────────────────────────────────────────────────────────

/// How many key presses in one batch make a paste of it. A human makes one,
/// at times two; a terminal that injects a paste makes dozens.
pub const MIN_PASTE_BURST_KEYS: usize = 3;

/// Whether an event is a key going down.
pub open spec fn is_press(e: TerminalView) -> bool {
    e matches TerminalView::Key { kind, .. } && kind != KeyKind::Release
}

/// Whether an event is the enter key going down.
pub open spec fn is_enter_press(e: TerminalView) -> bool {
    e matches TerminalView::Key { key, kind } && kind != KeyKind::Release && key.code
        == KeyCode::Enter
}

/// The number of key presses in a batch.
pub open spec fn press_count(batch: Seq<TerminalView>) -> nat {
    batch.filter(|e: TerminalView| is_press(e)).len()
}

/// Whether a batch is a paste that came in as keys: several presses at once,
/// and an enter among them.
pub open spec fn is_paste_burst(batch: Seq<TerminalView>) -> bool {
    press_count(batch) >= MIN_PASTE_BURST_KEYS && exists|i: int|
        0 <= i < batch.len() && is_enter_press(#[trigger] batch[i])
}

/// What an event adds to a pasted text: its character, a line break for
/// enter, and nothing for releases, shortcuts and other keys.
pub open spec fn pasted_by(e: TerminalView) -> Seq<char> {
    match e {
        TerminalView::Key { key, kind } => if kind == KeyKind::Release {
            Seq::empty()
        } else {
            match key.code {
                KeyCode::Char(c) => if key.modifiers.control {
                    Seq::empty()
                } else {
                    seq![c]
                },
                KeyCode::Enter => seq!['\n'],
                _ => Seq::empty(),
            }
        },
        _ => Seq::empty(),
    }
}

/// The text that was pasted in a burst.
pub open spec fn burst_text(batch: Seq<TerminalView>) -> Seq<char>
    decreases batch.len(),
{
    if batch.len() == 0 {
        Seq::empty()
    } else {
        burst_text(batch.drop_last()) + pasted_by(batch.last())
    }
}

/// Whether a batch of events that came in at once is a paste and not typing.
pub fn looks_like_paste_burst(event_batch: &Vec<TerminalEvent>) -> (r: bool)
    ensures
        r == is_paste_burst(batch_view(event_batch@)),
{
    let ghost all = batch_view(event_batch@);
    let ghost press = |e: TerminalView| is_press(e);
    let mut presses: usize = 0;
    let mut enter: bool = false;
    let mut i: usize = 0;
    assert(all.take(0) =~= Seq::<TerminalView>::empty());
    reveal(Seq::filter);
    while i < event_batch.len()
        invariant
            i <= event_batch@.len(),
            all == batch_view(event_batch@),
            press == (|e: TerminalView| is_press(e)),
            presses <= i,
            presses == all.take(i as int).filter(press).len(),
            enter == (exists|k: int| 0 <= k < i && is_enter_press(#[trigger] all[k])),
        decreases event_batch@.len() - i,
    {
        let ghost e = event_batch@[i as int]@;
        assert(all[i as int] == e);
        assert(all.take(i + 1).drop_last() =~= all.take(i as int));
        assert(all.take(i + 1).last() == e);
        proof {
            reveal(Seq::filter);
        }
        match &event_batch[i] {
            TerminalEvent::Key { key, kind } => {
                if *kind != KeyKind::Release {
                    presses = presses + 1;
                    if key.code == KeyCode::Enter {
                        assert(is_enter_press(all[i as int]));
                        enter = true;
                    }
                }
            },
            _ => {},
        }
        i = i + 1;
    }
    assert(all.take(i as int) =~= all);
    presses >= MIN_PASTE_BURST_KEYS && enter
}

/// The text that was pasted in a burst.
pub fn paste_batch_to_text(event_batch: &Vec<TerminalEvent>) -> (r: String)
    ensures
        r@ == burst_text(batch_view(event_batch@)),
{
    let ghost all = batch_view(event_batch@);
    let mut pasted_text = String::new();
    let mut i: usize = 0;
    assert(all.take(0) =~= Seq::<TerminalView>::empty());
    while i < event_batch.len()
        invariant
            i <= event_batch@.len(),
            all == batch_view(event_batch@),
            pasted_text@ == burst_text(all.take(i as int)),
        decreases event_batch@.len() - i,
    {
        let ghost e = event_batch@[i as int]@;
        let ghost before = pasted_text@;
        assert(all.take(i + 1).drop_last() =~= all.take(i as int));
        assert(all.take(i + 1).last() == e);
        match &event_batch[i] {
            TerminalEvent::Key { key, kind } => {
                if *kind != KeyKind::Release {
                    match key.code {
                        KeyCode::Char(c) => {
                            if !key.modifiers.control {
                                text::push_char(&mut pasted_text, c);
                            }
                        },
                        KeyCode::Enter => {
                            text::push_char(&mut pasted_text, '\n');
                        },
                        _ => {},
                    }
                }
            },
            _ => {},
        }
        assert(pasted_text@ =~= before + pasted_by(e));
        i = i + 1;
    }
    assert(all.take(i as int) =~= all);
    pasted_text
}

// ── Dispatch ────────────────────────────────────────────────────────────

/// The state after the terminal changed its size: the bottom is in view, and
/// the selection is dropped, since its rows have moved.
pub open spec fn resized(a: AppView) -> AppView {
    AppView { selection: None, ..input::at_bottom(a) }
}

/// What an event of the terminal does.
pub open spec fn on_terminal(a: AppView, e: TerminalView, f: FactsView) -> (
    AppView,
    Option<CommandView>,
) {
    match e {
        TerminalView::Key { key, kind } => if kind == KeyKind::Release {
            (a, None)
        } else {
            input::on_key(a, key, f)
        },
        TerminalView::Mouse(m) => (selection::on_mouse(a, m), None),
        TerminalView::Resize => (resized(a), None),
        TerminalView::Paste(s) => (input::on_paste(a, s), None),
        TerminalView::Other => (a, None),
    }
}

/// The state when the spinner may have moved: while the agent runs, it moves
/// once an interval has passed.
pub open spec fn ticked(a: AppView, now_ms: u64) -> AppView {
    if a.streaming && now_ms - a.last_spinner_tick >= theme::SPINNER_INTERVAL_MS {
        AppView {
            spinner_frame: ((a.spinner_frame + 1) % theme::SPINNER_FRAME_COUNT as int) as usize,
            last_spinner_tick: now_ms,
            ..a
        }
    } else {
        a
    }
}

impl App {
    /// Routes one event of the terminal to its handler, and returns what it
    /// asks of the program.
    pub fn dispatch_terminal_event(&mut self, event: &TerminalEvent, facts: &Facts) -> (r: Option<
        TuiCommand,
    >)
        requires
            old(self)@.wf(),
            old(self)@.paste_store.next_id < usize::MAX,
        ensures
            (final(self)@, messages::command_view(r)) == on_terminal(
                old(self)@,
                event@,
                facts@,
            ),
            final(self)@.wf(),
    {
        match event {
            TerminalEvent::Key { key, kind } => {
                if *kind == KeyKind::Release {
                    None
                } else {
                    self.handle_key(*key, facts)
                }
            },
            TerminalEvent::Mouse(m) => {
                self.handle_mouse_event(m);
                None
            },
            TerminalEvent::Resize => {
                self.handle_resize();
                None
            },
            TerminalEvent::Paste(s) => {
                self.handle_paste(s.as_str());
                None
            },
            TerminalEvent::Other => None,
        }
    }

    fn handle_resize(&mut self)
        ensures
            final(self)@ == resized(old(self)@),
    {
        reveal(app::app_view);
        self.scroll_offset = 0;
        self.auto_scroll = true;
        self.selection = None;
    }

    /// Moves the spinner on, where it is time.
    pub fn advance_spinner(&mut self, now_ms: u64)
        ensures
            final(self)@ == ticked(old(self)@, now_ms),
    {
        reveal(app::app_view);
        if self.streaming && now_ms >= self.last_spinner_tick && now_ms - self.last_spinner_tick
            >= theme::SPINNER_INTERVAL_MS {
            self.spinner_frame = (self.spinner_frame % theme::SPINNER_FRAME_COUNT + 1)
                % theme::SPINNER_FRAME_COUNT;
            self.last_spinner_tick = now_ms;
        }
    }
}

// ── Laws ────────────────────────────────────────────────────────────────

/// The event of a key going down that stands for a character.
pub open spec fn press_of(c: char) -> TerminalView {
    TerminalView::Key {
        key: KeyEvent {
            code: if c == '\n' {
                KeyCode::Enter
            } else {
                KeyCode::Char(c)
            },
            modifiers: KeyModifiers::none(),
        },
        kind: KeyKind::Press,
    }
}

/// The events of a text that a terminal injects as keys.
pub open spec fn presses_of(t: Seq<char>) -> Seq<TerminalView> {
    Seq::new(t.len(), |i: int| press_of(t[i]))
}

/// A text that a terminal injects as keys comes back whole.
pub proof fn law_burst_gives_the_text_back(t: Seq<char>)
    ensures
        burst_text(presses_of(t)) == t,
    decreases t.len(),
{
    if t.len() > 0 {
        let front = t.drop_last();
        assert(presses_of(t).drop_last() =~= presses_of(front));
        law_burst_gives_the_text_back(front);
        assert(front + seq![t.last()] =~= t);
    }
}

proof fn lemma_all_presses(batch: Seq<TerminalView>)
    requires
        forall|i: int| 0 <= i < batch.len() ==> is_press(#[trigger] batch[i]),
    ensures
        press_count(batch) == batch.len(),
    decreases batch.len(),
{
    reveal(Seq::filter);
    if batch.len() > 0 {
        assert(is_press(batch.last()));
        lemma_all_presses(batch.drop_last());
    }
}

/// A text of several lines that is injected as keys is taken for a paste,
/// unless it is shorter than a burst; a text of one line is not.
pub proof fn law_lines_make_a_burst(t: Seq<char>)
    ensures
        is_paste_burst(presses_of(t)) <==> t.len() >= MIN_PASTE_BURST_KEYS && t.contains('\n'),
{
    let batch = presses_of(t);
    lemma_all_presses(batch);
    if t.contains('\n') {
        let k = choose|k: int| 0 <= k < t.len() && t[k] == '\n';
        assert(is_enter_press(batch[k]));
    }
    if exists|i: int| 0 <= i < batch.len() && is_enter_press(#[trigger] batch[i]) {
        let i = choose|i: int| 0 <= i < batch.len() && is_enter_press(#[trigger] batch[i]);
        assert(t[i] == '\n');
    }
}

} // verus!
