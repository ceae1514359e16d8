//! Key handling: what each key does, in each mode of the interface.

use vstd::prelude::*;
use crate::sandbox::shell_filter::{self, VerdictView};
use crate::text;
use crate::tui::app::AppView;
use crate::tui::editor;
use crate::tui::intervene;
use crate::tui::keyboard::{self, KeyCode, KeyEvent, KeyModifiers, Platform};
use crate::tui::messages::{self, CommandView, MessageView};
use crate::tui::paste;
use crate::tui::selection;
use crate::tui::slash::{self, FactsView};

verus! {

/// How far a page key scrolls.
pub const PAGE_STEP: usize = 8;

/// Usage of the shell prefix.
pub const SHELL_USAGE: &'static str = "Usage: !<command> — runs a shell command and shares output with the agent.";

// ── Submitting ──────────────────────────────────────────────────────────

/// The state with an empty input.
pub open spec fn cleared_input(a: AppView) -> AppView {
    AppView { input: Seq::empty(), input_cursor: 0, ..a }
}

/// The state with an empty input and no pastes.
pub open spec fn cleared(a: AppView) -> AppView {
    AppView { paste_store: paste::StoreView::cleared(), ..cleared_input(a) }
}

/// The state with the bottom of the chat in view.
pub open spec fn at_bottom(a: AppView) -> AppView {
    AppView { auto_scroll: true, scroll_offset: 0, ..a }
}

/// The state with a submission in the history.
pub open spec fn remembered(a: AppView, s: Seq<char>) -> AppView {
    AppView { history: a.history.push(s), history_index: None, draft_input: Seq::empty(), ..a }
}

/// A message of the user.
pub open spec fn user_message(content: Seq<char>, now: Seq<char>) -> MessageView {
    MessageView::User { content, timestamp: now }
}

/// A hint for the running agent: it is queued and shown.
pub open spec fn injected(a: AppView, s: Seq<char>, now: Seq<char>) -> AppView {
    at_bottom(
        cleared(
            (AppView { pending_hints: a.pending_hints.push(s), ..a }).with_message(
                user_message(s, now),
            ),
        ),
    )
}

/// A `!` command: it runs, is refused, or waits for confirmation, as the
/// verdict of the sandbox says.
pub open spec fn on_verdict(a: AppView, command: Seq<char>, v: VerdictView, now: Seq<char>) -> (
    AppView,
    Option<CommandView>,
) {
    match v {
        VerdictView::AutoApproved => (a, Some(CommandView::RunShell(command))),
        VerdictView::Blocked { reason } => (
            a.with_error("Blocked by sandbox policy: "@ + reason, now),
            None,
        ),
        VerdictView::RequiresApproval => (
            (AppView { pending_shell_confirm: Some(command), ..a }).with_system(
                "Run shell command `!"@ + command + "`? (y/n)"@,
                now,
            ),
            None,
        ),
    }
}

/// What a `!` command does.
pub open spec fn on_bang(a: AppView, command: Seq<char>, now: Seq<char>) -> (
    AppView,
    Option<CommandView>,
) {
    let b = AppView { auto_scroll: true, ..cleared(a) };
    if command.len() == 0 {
        (b.with_system(SHELL_USAGE@, now), None)
    } else {
        on_verdict(b, command, shell_filter::classified(a.shell_filter, command), now)
    }
}

/// A message to the agent: it is shown, and the agent runs on it.
pub open spec fn sent(a: AppView, s: Seq<char>, now: Seq<char>) -> AppView {
    let b = at_bottom(cleared(a.with_message(user_message(s, now))));
    AppView { streaming: true, last_submitted_input: Some(s), ..b }
}

/// Whether an input is a `!` command; two marks are plain text.
pub open spec fn is_bang(raw: Seq<char>) -> bool {
    text::first_is(raw, '!') && !text::begins_with(raw, "!!"@)
}

/// What a submission does whose pastes are expanded. Commands are looked for
/// in what was typed, never in what was pasted.
pub open spec fn on_submission(a: AppView, raw: Seq<char>, expanded: Seq<char>, f: FactsView) -> (
    AppView,
    Option<CommandView>,
) {
    let b = remembered(a, expanded);
    if a.streaming {
        (injected(b, expanded, f.now), None)
    } else if is_bang(raw) {
        on_bang(b, text::trimmed(raw.skip(1)), f.now)
    } else {
        match slash::on_slash(b, raw, f) {
            Some((c, cmd)) => (AppView { auto_scroll: true, ..cleared(c) }, cmd),
            None => (sent(b, expanded, f.now), Some(CommandView::RunAgent(expanded))),
        }
    }
}

/// What the enter key does.
pub open spec fn on_enter(a: AppView, modifiers: KeyModifiers, f: FactsView) -> (
    AppView,
    Option<CommandView>,
) {
    if modifiers.shift {
        (a.with_edit(a.edit().typed(seq!['\n'])), None)
    } else {
        let b = AppView { slash_completion: None, slash_dismissed: false, ..a };
        let raw = text::trimmed(a.input);
        let expanded = paste::expanded(a.paste_store.blocks, raw);
        if raw.len() == 0 {
            (cleared_input(b), None)
        } else if text::trimmed(expanded).len() == 0 {
            (cleared(b), None)
        } else {
            on_submission(b, raw, expanded, f)
        }
    }
}

// ── Other keys ──────────────────────────────────────────────────────────

/// The hint on how to leave.
pub open spec fn exit_hint(platform: Platform) -> Seq<char> {
    if platform == Platform::MacOs {
        "Press Ctrl+D to exit, or type /exit. ("@ + keyboard::copy_shortcut_label(platform)@
            + " copies selected text)"@
    } else {
        "Press Ctrl+D to exit, or type /exit."@
    }
}

/// Copy, cancel, or a hint on how to leave.
pub open spec fn on_copy_or_cancel(a: AppView, key: KeyEvent, now: Seq<char>) -> (
    AppView,
    Option<CommandView>,
) {
    let selected = a.selection matches Some(s) && !s.dragging;
    if keyboard::is_copy_shortcut(&key, a.platform) && selected {
        (
            AppView { selection: None, ..a },
            Some(CommandView::CopyText(selection::selection_text(a))),
        )
    } else if keyboard::is_cancel_shortcut(&key) {
        if a.streaming {
            (AppView { streaming: false, ..a }, Some(CommandView::CancelGeneration))
        } else {
            (a.with_system(exit_hint(a.platform), now), None)
        }
    } else {
        (a, None)
    }
}

/// Leave, or delete forward.
pub open spec fn on_ctrl_d(a: AppView) -> (AppView, Option<CommandView>) {
    if a.input.len() == 0 && !a.streaming {
        (AppView { should_quit: true, ..a }, Some(CommandView::Exit))
    } else {
        (a.with_edit(a.edit().deleted()), None)
    }
}

/// Submit the last message once more.
pub open spec fn on_ctrl_r(a: AppView, now: Seq<char>) -> (AppView, Option<CommandView>) {
    if a.streaming {
        (a, None)
    } else {
        match a.last_submitted_input {
            Some(s) => (
                at_bottom(AppView { streaming: true, ..a.with_message(user_message(s, now)) }),
                Some(CommandView::RunAgent(s)),
            ),
            None => (a, None),
        }
    }
}

/// Drop the selection, else cancel.
pub open spec fn on_esc(a: AppView) -> (AppView, Option<CommandView>) {
    if a.selection is Some {
        (AppView { selection: None, ..a }, None)
    } else if a.streaming {
        (AppView { streaming: false, ..a }, Some(CommandView::CancelGeneration))
    } else {
        (a, None)
    }
}

/// The state with an entry of the history in the input.
pub open spec fn recalled(a: AppView, i: int) -> AppView {
    AppView {
        history_index: Some(i as usize),
        input: a.history[i],
        input_cursor: text::byte_len(a.history[i]) as int,
        ..a
    }
}

/// A line up in the input, else an entry back in the history.
pub open spec fn on_up(a: AppView) -> AppView {
    let up = editor::up_from(a.input, a.edit().pos());
    if a.history_index is None && up is Some {
        a.with_edit(a.edit().at(up->0))
    } else if a.history.len() == 0 {
        a
    } else {
        match a.history_index {
            None => recalled(
                AppView { draft_input: a.input, ..a },
                a.history.len() - 1,
            ),
            Some(i) => if i > 0 {
                recalled(a, i - 1)
            } else {
                a
            },
        }
    }
}

/// A line down in the input, else an entry forward in the history; behind
/// the last one the draft comes back.
pub open spec fn on_down(a: AppView) -> AppView {
    let down = editor::down_from(a.input, a.edit().pos());
    if a.history_index is None && down is Some {
        a.with_edit(a.edit().at(down->0))
    } else {
        match a.history_index {
            Some(i) => if i + 1 < a.history.len() {
                recalled(a, i + 1)
            } else {
                AppView {
                    history_index: None,
                    input: a.draft_input,
                    input_cursor: text::byte_len(a.draft_input) as int,
                    ..a
                }
            },
            None => a,
        }
    }
}

/// Delete backward: a placeholder as a whole, with its paste.
pub open spec fn on_backspace(a: AppView) -> AppView {
    let b = AppView { slash_dismissed: false, ..a };
    match paste::suffix_of(a.paste_store.blocks, a.input.take(a.edit().pos())) {
        Some(p) => if a.input_cursor > 0 {
            AppView {
                paste_store: a.paste_store.without(p),
                ..b.with_edit(a.edit().without_before(p.len() as int))
            }
        } else {
            b
        },
        None => b.with_edit(a.edit().backspaced()),
    }
}

/// The popup opens on a slash, unless it was dismissed or the agent runs.
pub open spec fn offered(a: AppView) -> AppView {
    if !a.streaming && !a.slash_dismissed && text::first_is(a.input, '/') {
        slash::recompleted(a)
    } else {
        a
    }
}

/// A character key.
pub open spec fn on_char(a: AppView, key: KeyEvent, c: char) -> AppView {
    if keyboard::has_shortcut_modifier(&key, a.platform) {
        a
    } else if c == '?' && a.input.len() == 0 && !a.streaming {
        AppView { show_help: true, ..a }
    } else {
        offered(a.with_edit(a.edit().typed(seq![c])))
    }
}

/// The state with the trace panel shown where it was hidden, and hidden where
/// it was shown.
pub open spec fn debug_toggled(a: AppView) -> AppView {
    AppView { debug: a.debug.toggled(), ..a }
}

/// What a key does while nothing is open above the input. The trace panel
/// takes the keys that scroll and close it, and no others.
pub open spec fn on_main_key(a: AppView, key: KeyEvent, f: FactsView) -> (
    AppView,
    Option<CommandView>,
) {
    if keyboard::is_paste_shortcut(&key, a.platform) {
        (a, Some(CommandView::ReadClipboard))
    } else if keyboard::is_copy_shortcut(&key, a.platform) || keyboard::is_cancel_shortcut(&key) {
        on_copy_or_cancel(a, key, f.now)
    } else {
        match key.code {
            KeyCode::Enter => on_enter(a, key.modifiers, f),
            KeyCode::Esc => if a.debug.visible {
                (debug_toggled(a), None)
            } else {
                on_esc(a)
            },
            KeyCode::PageUp => (selection::scrolled_up(a, PAGE_STEP as nat), None),
            KeyCode::PageDown => (selection::scrolled_down(a, PAGE_STEP as nat), None),
            KeyCode::Up => if a.debug.visible {
                (AppView { debug: a.debug.scrolled_up(1), ..a }, None)
            } else {
                (on_up(a), None)
            },
            KeyCode::Down => if a.debug.visible {
                (AppView { debug: a.debug.scrolled_down(1), ..a }, None)
            } else {
                (on_down(a), None)
            },
            KeyCode::Home => (a.with_edit(a.edit().at(0)), None),
            KeyCode::End => (a.with_edit(a.edit().moved_end()), None),
            KeyCode::Left => (a.with_edit(a.edit().moved_left()), None),
            KeyCode::Right => (a.with_edit(a.edit().moved_right()), None),
            KeyCode::Backspace => (on_backspace(a), None),
            KeyCode::Delete => (a.with_edit(a.edit().deleted()), None),
            KeyCode::Char(c) => if c == 'd' && key.modifiers.control {
                on_ctrl_d(a)
            } else if c == 'r' && key.modifiers.control {
                on_ctrl_r(a, f.now)
            } else if c == 'o' && key.modifiers.control {
                (debug_toggled(a), None)
            } else {
                (on_char(a, key, c), None)
            },
            _ => (a, None),
        }
    }
}

/// What a key does while a saved conversation is chosen.
pub open spec fn on_picker_key(a: AppView, code: KeyCode) -> (AppView, Option<CommandView>) {
    match a.thread_picker {
        Some(p) => match code {
            KeyCode::Esc => (AppView { thread_picker: None, ..a }, None),
            KeyCode::Enter => (
                AppView { thread_picker: None, ..a },
                Some(CommandView::LoadConversation(p.threads[p.selected as int].name)),
            ),
            KeyCode::Up => (
                AppView {
                    thread_picker: Some(
                        messages::PickerView {
                            selected: if p.selected > 0 {
                                (p.selected - 1) as usize
                            } else {
                                0
                            },
                            ..p
                        },
                    ),
                    ..a
                },
                None,
            ),
            KeyCode::Down => (
                AppView {
                    thread_picker: Some(
                        messages::PickerView {
                            selected: if p.selected + 1 < p.threads.len() {
                                (p.selected + 1) as usize
                            } else {
                                p.selected
                            },
                            ..p
                        },
                    ),
                    ..a
                },
                None,
            ),
            _ => (a, None),
        },
        None => (a, None),
    }
}

/// What a key does while a `!` command waits for confirmation.
pub open spec fn on_confirm_key(a: AppView, code: KeyCode, now: Seq<char>) -> (
    AppView,
    Option<CommandView>,
) {
    match a.pending_shell_confirm {
        Some(command) => {
            let b = AppView { pending_shell_confirm: None, ..a };
            if code == KeyCode::Char('y') || code == KeyCode::Char('Y') || code == KeyCode::Enter {
                (AppView { auto_scroll: true, ..b }, Some(CommandView::RunShell(command)))
            } else if code == KeyCode::Char('n') || code == KeyCode::Char('N') || code
                == KeyCode::Esc {
                (b.with_system("Shell command cancelled: !"@ + command, now), None)
            } else {
                (a, None)
            }
        },
        None => (a, None),
    }
}

/// What a key does while the help is shown.
pub open spec fn on_help_key(a: AppView, code: KeyCode) -> AppView {
    if code == KeyCode::Esc || code == KeyCode::Enter || code == KeyCode::Char('?') || code
        == KeyCode::F(1) {
        AppView { show_help: false, ..a }
    } else {
        a
    }
}

/// The popup with its highlight elsewhere.
pub open spec fn highlighted(a: AppView, selected: usize) -> AppView {
    AppView {
        slash_completion: match a.slash_completion {
            Some(c) => Some(messages::CompletionView { selected, ..c }),
            None => None,
        },
        ..a
    }
}

/// What a key does while the popup is open.
pub open spec fn on_completion_key(a: AppView, key: KeyEvent, f: FactsView) -> (
    AppView,
    Option<CommandView>,
) {
    let closed = AppView { slash_completion: None, ..a };
    let sel = a.slash_completion->0.selected;
    match key.code {
        KeyCode::Esc => (AppView { slash_dismissed: true, ..closed }, None),
        KeyCode::Up => (
            highlighted(
                a,
                if sel > 0 {
                    (sel - 1) as usize
                } else {
                    0
                },
            ),
            None,
        ),
        KeyCode::Down => (
            highlighted(
                a,
                if sel + 1 < a.slash_completion->0.matches.len() {
                    (sel + 1) as usize
                } else {
                    sel
                },
            ),
            None,
        ),
        KeyCode::Tab => (slash::accepted(a), None),
        KeyCode::Right => (slash::accepted(a), None),
        KeyCode::Enter => if slash::needs_argument(a) {
            (slash::accepted(a), None)
        } else {
            on_enter(slash::accepted(a), KeyModifiers::none(), f)
        },
        KeyCode::Backspace => {
            let b = a.with_edit(a.edit().backspaced());
            if text::first_is(b.input, '/') {
                (slash::recompleted(b), None)
            } else {
                (AppView { slash_completion: None, ..b }, None)
            }
        },
        KeyCode::Char(c) => if keyboard::has_shortcut_modifier(&key, a.platform) {
            on_main_key(closed, key, f)
        } else {
            (slash::recompleted(a.with_edit(a.edit().typed(seq![c]))), None)
        },
        _ => on_main_key(closed, key, f),
    }
}

/// What a key does. What is open above the input takes the keys: the thread
/// picker first, then a pending intervention, a command that waits for
/// confirmation, the help, and the popup.
pub open spec fn on_key(a: AppView, key: KeyEvent, f: FactsView) -> (AppView, Option<CommandView>) {
    if a.thread_picker is Some {
        on_picker_key(a, key.code)
    } else if intervene::last_pending(a.messages) >= 0 {
        intervene::on_intervene_key(a, key.code)
    } else if a.pending_shell_confirm is Some {
        on_confirm_key(a, key.code, f.now)
    } else if a.show_help {
        (on_help_key(a, key.code), None)
    } else if key.code == KeyCode::F(1) {
        (AppView { show_help: true, ..a }, None)
    } else if a.slash_completion is Some {
        on_completion_key(a, key, f)
    } else {
        on_main_key(a, key, f)
    }
}

/// Whether something other than the input takes the keys.
pub open spec fn is_modal(a: AppView) -> bool {
    a.thread_picker is Some || intervene::last_pending(a.messages) >= 0
        || a.pending_shell_confirm is Some || a.show_help
}

/// What a paste does: several lines are kept aside, and their placeholder is
/// typed; one line is typed as it is. While something else takes the keys,
/// nothing is pasted.
pub open spec fn on_paste(a: AppView, pasted: Seq<char>) -> AppView {
    let t = paste::normalized(pasted);
    if is_modal(a) || t.len() == 0 {
        a
    } else if t.contains('\n') {
        let store = a.paste_store.with_text(t);
        offered(
            AppView { paste_store: store, ..a }.with_edit(
                a.edit().typed(paste::placeholder_of(store.blocks.last())),
            ),
        )
    } else {
        offered(a.with_edit(a.edit().typed(t)))
    }
}

} // verus!
