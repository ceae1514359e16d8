//! What holds of every key and every paste.

use vstd::prelude::*;
use crate::text;
use crate::tui::app::AppView;
use crate::tui::editor;
use crate::tui::input;
use crate::tui::intervene;
use crate::tui::keyboard::{self, KeyCode, KeyEvent, KeyModifiers};
use crate::tui::messages::CommandView;
use crate::tui::paste;
use crate::tui::selection;
use crate::tui::slash::{self, FactsView};

verus! {

// ── The state stays valid ───────────────────────────────────────────────

proof fn lemma_slash_wf(a: AppView, raw: Seq<char>, f: FactsView)
    requires
        a.wf(),
    ensures
        slash::on_slash(a, raw, f) matches Some(r) ==> r.0.wf(),
{
}

proof fn lemma_submission_wf(a: AppView, raw: Seq<char>, expanded: Seq<char>, f: FactsView)
    requires
        a.wf(),
    ensures
        input::on_submission(a, raw, expanded, f).0.wf(),
{
    editor::lemma_ends(Seq::<char>::empty());
    let b = input::remembered(a, expanded);
    assert(b.wf());
    if !a.streaming && !input::is_bang(raw) {
        lemma_slash_wf(b, raw, f);
    }
}

proof fn lemma_enter_wf(a: AppView, modifiers: KeyModifiers, f: FactsView)
    requires
        a.wf(),
    ensures
        input::on_enter(a, modifiers, f).0.wf(),
{
    if modifiers.shift {
        editor::lemma_typed(a.edit(), seq!['\n']);
    } else {
        editor::lemma_ends(Seq::<char>::empty());
        let b = AppView { slash_completion: None, slash_dismissed: false, ..a };
        let raw = text::trimmed(a.input);
        lemma_submission_wf(b, raw, paste::expanded(a.paste_store.blocks, raw), f);
    }
}

proof fn lemma_history_wf(a: AppView)
    requires
        a.wf(),
    ensures
        input::on_up(a).wf(),
        input::on_down(a).wf(),
{
    editor::lemma_pos(a.edit());
    editor::lemma_vertical(a.input, a.edit().pos());
    let up = editor::up_from(a.input, a.edit().pos());
    if up is Some {
        editor::lemma_at(a.edit(), up->0);
    }
    let down = editor::down_from(a.input, a.edit().pos());
    if down is Some {
        editor::lemma_at(a.edit(), down->0);
    }
    editor::lemma_ends(a.draft_input);
    match a.history_index {
        None => {
            if a.history.len() > 0 {
                editor::lemma_ends(a.history.last());
            }
        },
        Some(i) => {
            if i > 0 {
                editor::lemma_ends(a.history[i - 1]);
            }
            if i + 1 < a.history.len() {
                editor::lemma_ends(a.history[i + 1]);
            }
        },
    }
}

proof fn lemma_suffix(blocks: Seq<paste::BlockView>, s: Seq<char>)
    ensures
        paste::suffix_of(blocks, s) matches Some(p) ==> p.len() <= s.len(),
    decreases blocks.len(),
{
    if blocks.len() > 0 {
        lemma_suffix(blocks.skip(1), s);
    }
}

proof fn lemma_backspace_wf(a: AppView)
    requires
        a.wf(),
    ensures
        input::on_backspace(a).wf(),
{
    let e = a.edit();
    editor::lemma_pos(e);
    let before = a.input.take(e.pos());
    lemma_suffix(a.paste_store.blocks, before);
    match paste::suffix_of(a.paste_store.blocks, before) {
        Some(p) => {
            editor::lemma_without_before(e, p.len() as int);
            paste::lemma_without_wf(a.paste_store, p);
        },
        None => {
            if e.pos() > 0 {
                editor::lemma_without_before(e, 1);
            }
        },
    }
}

proof fn lemma_offered_wf(a: AppView)
    requires
        a.wf(),
    ensures
        input::offered(a).wf(),
{
    slash::lemma_recompleted_wf(a);
}

proof fn lemma_char_wf(a: AppView, key: KeyEvent, c: char)
    requires
        a.wf(),
    ensures
        input::on_char(a, key, c).wf(),
{
    editor::lemma_typed(a.edit(), seq![c]);
    lemma_offered_wf(a.with_edit(a.edit().typed(seq![c])));
}

proof fn lemma_moves_wf(a: AppView)
    requires
        a.wf(),
    ensures
        a.with_edit(a.edit().at(0)).wf(),
        a.with_edit(a.edit().moved_end()).wf(),
        a.with_edit(a.edit().moved_left()).wf(),
        a.with_edit(a.edit().moved_right()).wf(),
        a.with_edit(a.edit().deleted()).wf(),
        a.with_edit(a.edit().backspaced()).wf(),
{
    let e = a.edit();
    editor::lemma_pos(e);
    editor::lemma_at(e, 0);
    editor::lemma_ends(e.input);
    editor::lemma_deleted(e);
    if e.pos() > 0 {
        editor::lemma_at(e, e.pos() - 1);
        editor::lemma_without_before(e, 1);
    }
    if e.pos() < e.input.len() {
        editor::lemma_at(e, e.pos() + 1);
    }
}

proof fn lemma_copy_wf(a: AppView, key: KeyEvent, now: Seq<char>)
    requires
        a.wf(),
    ensures
        input::on_copy_or_cancel(a, key, now).0.wf(),
{
}

proof fn lemma_control_wf(a: AppView, now: Seq<char>)
    requires
        a.wf(),
    ensures
        input::on_ctrl_d(a).0.wf(),
        input::on_ctrl_r(a, now).0.wf(),
        input::on_esc(a).0.wf(),
{
    editor::lemma_deleted(a.edit());
}

proof fn lemma_scroll_wf(a: AppView, n: nat)
    requires
        a.wf(),
    ensures
        selection::scrolled_up(a, n).wf(),
        selection::scrolled_down(a, n).wf(),
{
}

proof fn lemma_main_wf(a: AppView, key: KeyEvent, f: FactsView)
    requires
        a.wf(),
    ensures
        input::on_main_key(a, key, f).0.wf(),
{
    lemma_copy_wf(a, key, f.now);
    let r = input::on_main_key(a, key, f).0;
    if keyboard::is_paste_shortcut(&key, a.platform) || keyboard::is_copy_shortcut(
        &key,
        a.platform,
    ) || keyboard::is_cancel_shortcut(&key) {
        assert(r.wf());
    } else {
        match key.code {
            KeyCode::Enter => lemma_enter_wf(a, key.modifiers, f),
            KeyCode::Esc => lemma_control_wf(a, f.now),
            KeyCode::PageUp => lemma_scroll_wf(a, input::PAGE_STEP as nat),
            KeyCode::PageDown => lemma_scroll_wf(a, input::PAGE_STEP as nat),
            KeyCode::Up => lemma_history_wf(a),
            KeyCode::Down => lemma_history_wf(a),
            KeyCode::Backspace => lemma_backspace_wf(a),
            KeyCode::Char(c) => {
                lemma_control_wf(a, f.now);
                lemma_char_wf(a, key, c);
            },
            KeyCode::Home => lemma_moves_wf(a),
            KeyCode::End => lemma_moves_wf(a),
            KeyCode::Left => lemma_moves_wf(a),
            KeyCode::Right => lemma_moves_wf(a),
            KeyCode::Delete => lemma_moves_wf(a),
            _ => {},
        }
        assert(r.wf());
    }
}

proof fn lemma_completion_key_wf(a: AppView, key: KeyEvent, f: FactsView)
    requires
        a.wf(),
        a.slash_completion is Some,
    ensures
        input::on_completion_key(a, key, f).0.wf(),
{
    let closed = AppView { slash_completion: None, ..a };
    match key.code {
        KeyCode::Tab => slash::lemma_accepted_wf(a),
        KeyCode::Right => slash::lemma_accepted_wf(a),
        KeyCode::Enter => {
            slash::lemma_accepted_wf(a);
            lemma_enter_wf(slash::accepted(a), KeyModifiers::none(), f);
        },
        KeyCode::Backspace => {
            lemma_moves_wf(a);
            slash::lemma_recompleted_wf(a.with_edit(a.edit().backspaced()));
        },
        KeyCode::Char(c) => {
            lemma_main_wf(closed, key, f);
            editor::lemma_typed(a.edit(), seq![c]);
            slash::lemma_recompleted_wf(a.with_edit(a.edit().typed(seq![c])));
        },
        KeyCode::Esc => {},
        KeyCode::Up => {},
        KeyCode::Down => {},
        _ => lemma_main_wf(closed, key, f),
    }
}

/// No key makes a cursor or an index invalid, whatever is open.
pub proof fn law_keys_keep_the_state(a: AppView, key: KeyEvent, f: FactsView)
    requires
        a.wf(),
    ensures
        input::on_key(a, key, f).0.wf(),
{
    if a.thread_picker is Some {
    } else if intervene::last_pending(a.messages) >= 0 {
        intervene::lemma_intervene_wf(a, key.code);
    } else if a.pending_shell_confirm is Some || a.show_help || key.code == KeyCode::F(1) {
    } else if a.slash_completion is Some {
        lemma_completion_key_wf(a, key, f);
    } else {
        lemma_main_wf(a, key, f);
    }
}

/// No paste makes a cursor or an index invalid.
pub proof fn law_pastes_keep_the_state(a: AppView, pasted: Seq<char>)
    requires
        a.wf(),
    ensures
        input::on_paste(a, pasted).wf(),
{
    let t = paste::normalized(pasted);
    let store = a.paste_store.with_text(t);
    let p = paste::placeholder_of(store.blocks.last());
    editor::lemma_typed(a.edit(), t);
    editor::lemma_typed(a.edit(), p);
    paste::lemma_with_text_wf(a.paste_store, t);
    lemma_offered_wf(a.with_edit(a.edit().typed(t)));
    lemma_offered_wf(AppView { paste_store: store, ..a }.with_edit(a.edit().typed(p)));
}

// ── What takes the keys ─────────────────────────────────────────────────

/// While something is open above the input, nothing is pasted.
pub proof fn law_modes_take_no_paste(a: AppView, pasted: Seq<char>)
    requires
        input::is_modal(a),
    ensures
        input::on_paste(a, pasted) == a,
{
}

/// While something is open above the input, no key is typed into the input,
/// unless the user writes an answer to an intervention.
pub proof fn law_modes_take_the_keys(a: AppView, key: KeyEvent, f: FactsView)
    requires
        input::is_modal(a),
        intervene::last_pending(a.messages) < 0,
    ensures
        input::on_key(a, key, f).0.input == a.input,
        input::on_key(a, key, f).0.history == a.history,
{
}

/// A command that waits for confirmation runs on a yes and on nothing else:
/// every other key asks nothing of the program.
pub proof fn law_confirmation_is_needed(a: AppView, key: KeyEvent, f: FactsView)
    requires
        a.thread_picker is None,
        intervene::last_pending(a.messages) < 0,
        a.pending_shell_confirm is Some,
    ensures
        ({
            let cmd = input::on_key(a, key, f).1;
            let yes = key.code == KeyCode::Char('y') || key.code == KeyCode::Char('Y') || key.code
                == KeyCode::Enter;
            &&& yes ==> cmd == Some(CommandView::RunShell(a.pending_shell_confirm->0))
            &&& !yes ==> cmd is None
        }),
{
}

/// The help takes every key, and asks nothing of the program.
pub proof fn law_help_takes_the_keys(a: AppView, key: KeyEvent, f: FactsView)
    requires
        a.thread_picker is None,
        intervene::last_pending(a.messages) < 0,
        a.pending_shell_confirm is None,
        a.show_help,
    ensures
        input::on_key(a, key, f).1 is None,
        input::on_key(a, key, f).0 == (AppView {
            show_help: input::on_key(a, key, f).0.show_help,
            ..a
        }),
{
}

/// Ctrl+C cancels, copies or hints; it never ends the program.
pub proof fn law_cancel_never_quits(a: AppView, key: KeyEvent, f: FactsView)
    requires
        keyboard::is_cancel_shortcut(&key),
    ensures
        input::on_key(a, key, f).0.should_quit == a.should_quit,
        input::on_key(a, key, f).1 != Some(CommandView::Exit),
{
}

// ── Submissions ─────────────────────────────────────────────────────────

/// A submission while the agent runs becomes a hint for it: it asks nothing
/// of the program, and the agent goes on.
pub proof fn law_hints_reach_the_run(
    a: AppView,
    raw: Seq<char>,
    expanded: Seq<char>,
    f: FactsView,
)
    requires
        a.streaming,
    ensures
        ({
            let (b, cmd) = input::on_submission(a, raw, expanded, f);
            &&& cmd is None
            &&& b.streaming
            &&& b.pending_hints == a.pending_hints.push(expanded)
        }),
{
}

/// Ctrl+R sends the last message once more.
pub proof fn law_retry_sends_again(a: AppView, s: Seq<char>, f: FactsView, now: Seq<char>)
    ensures
        input::on_ctrl_r(AppView { streaming: false, ..input::sent(a, s, f.now) }, now).1 == Some(
            CommandView::RunAgent(s),
        ),
{
}

/// A step back in the history and a step forward give the draft back.
pub proof fn law_history_gives_the_draft_back(a: AppView)
    requires
        a.wf(),
        a.history_index is None,
        a.history.len() > 0,
        a.history.len() <= usize::MAX,
        editor::up_from(a.input, a.edit().pos()) is None,
    ensures
        input::on_up(a).input == a.history.last(),
        input::on_down(input::on_up(a)).input == a.input,
        input::on_down(input::on_up(a)).history_index is None,
{
}

proof fn lemma_first_space(s: Seq<char>)
    ensures
        0 <= text::first_space(s) <= s.len(),
        s.len() > 0 && !text::is_space(s[0]) ==> text::first_space(s) > 0,
    decreases s.len(),
{
    if s.len() > 0 {
        lemma_first_space(s.skip(1));
    }
}

/// An input that does not begin with a slash is no command.
pub proof fn law_commands_begin_with_a_slash(a: AppView, raw: Seq<char>, f: FactsView)
    requires
        !text::first_is(raw, '/'),
    ensures
        slash::on_slash(a, raw, f) is None,
{
    lemma_first_space(raw);
    let (cmd, rest) = slash::split_command(raw);
    assert(cmd.len() > 0 ==> cmd[0] == raw[0]);
    assert(cmd.len() == 0 || cmd[0] != '/');
    reveal_strlit("/save");
    reveal_strlit("/resume");
    reveal_strlit("/skill");
    reveal_strlit("/exit");
    reveal_strlit("/new");
    reveal_strlit("/plan");
    reveal_strlit("/approve");
    reveal_strlit("/threads");
    reveal_strlit("/stats");
    reveal_strlit("/tools");
    reveal_strlit("/init");
    reveal_strlit("/debug");
    reveal_strlit("/trace-save");
    reveal_strlit("/help");
}

proof fn lemma_placeholder_is_trimmed(b: paste::BlockView)
    ensures
        paste::placeholder_of(b).len() > 0,
        paste::placeholder_of(b)[0] == '[',
        text::trimmed(paste::placeholder_of(b)) == paste::placeholder_of(b),
{
    reveal_strlit("[Pasted text #");
    reveal_strlit("]");
    reveal_strlit(" lines]");
    let p = paste::placeholder_of(b);
    assert(p.last() == ']');
}

/// What was pasted is sent as it is, and is never taken for a command: where
/// the whole input is the placeholder of a kept paste, the agent gets that
/// paste, also where it begins like a command. A paste in which a later one's
/// placeholder stands is left out: that one is put in too.
pub proof fn law_pasted_text_is_no_command(a: AppView, k: int, key: KeyEvent, f: FactsView)
    requires
        a.wf(),
        !input::is_modal(a),
        !a.streaming,
        a.slash_completion is None,
        0 <= k < a.paste_store.blocks.len(),
        a.input == paste::placeholder_of(a.paste_store.blocks[k]),
        text::trimmed(a.paste_store.blocks[k].text).len() > 0,
        forall|i: int|
            k < i < a.paste_store.blocks.len() ==> !text::contains_text(
                a.paste_store.blocks[k].text,
                paste::placeholder_of(#[trigger] a.paste_store.blocks[i]),
            ),
        key.code == KeyCode::Enter,
        !key.modifiers.shift,
    ensures
        input::on_key(a, key, f).1 == Some(
            CommandView::RunAgent(a.paste_store.blocks[k].text),
        ),
{
    let blocks = a.paste_store.blocks;
    let p = paste::placeholder_of(blocks[k]);
    let t = blocks[k].text;
    lemma_placeholder_is_trimmed(blocks[k]);
    let none = Seq::<char>::empty();
    assert(none + p + none =~= p);
    assert(none + t + none =~= t);
    assert forall|i: int| #[trigger] text::occurs_at(none + p + none, p, i) implies i
        == none.len() by {}
    assert forall|i: int| 0 <= i < k implies !text::contains_text(
        none + p + none,
        paste::placeholder_of(#[trigger] blocks[i]),
    ) by {
        assert(blocks[i].id < blocks[k].id);
        paste::lemma_other_placeholder_absent(blocks[i], blocks[k]);
    }
    paste::law_paste_comes_back(blocks, k, none, none);
    assert(paste::expanded(blocks, p) == t);
    let c = input::remembered(
        AppView { slash_completion: None, slash_dismissed: false, ..a },
        t,
    );
    law_commands_begin_with_a_slash(c, p, f);
}

/// Several lines that are pasted into an empty input and submitted reach the
/// agent as they are, whatever else is kept.
pub proof fn law_pasted_lines_are_sent(a: AppView, pasted: Seq<char>, key: KeyEvent, f: FactsView)
    requires
        a.wf(),
        !input::is_modal(a),
        !a.streaming,
        a.slash_completion is None,
        a.input.len() == 0,
        paste::has_line_end(pasted),
        text::trimmed(paste::normalized(pasted)).len() > 0,
        key.code == KeyCode::Enter,
        !key.modifiers.shift,
    ensures
        input::on_key(input::on_paste(a, pasted), key, f).1 == Some(
            CommandView::RunAgent(paste::normalized(pasted)),
        ),
{
    paste::law_line_ends_are_kept(pasted);
    let t = paste::normalized(pasted);
    let store = a.paste_store.with_text(t);
    let k = store.blocks.len() - 1;
    editor::lemma_pos(a.edit());
    lemma_placeholder_is_trimmed(store.blocks[k]);
    law_pastes_keep_the_state(a, pasted);
    let b = input::on_paste(a, pasted);
    assert(b.input =~= paste::placeholder_of(store.blocks[k]));
    law_pasted_text_is_no_command(b, k, key, f);
}

/// One backspace undoes a paste of several lines: the input, the cursor and
/// the kept pastes are as they were before. Only the number of the paste is
/// not given out again.
pub proof fn law_backspace_undoes_a_paste(a: AppView, pasted: Seq<char>, key: KeyEvent, f: FactsView)
    requires
        a.wf(),
        !input::is_modal(a),
        a.slash_completion is None,
        a.streaming || a.slash_dismissed || !text::first_is(a.input, '/'),
        paste::has_line_end(pasted),
        key.code == KeyCode::Backspace,
    ensures
        input::on_key(input::on_paste(a, pasted), key, f) == (
            AppView {
                slash_dismissed: false,
                paste_store: paste::StoreView {
                    next_id: a.paste_store.next() + 1,
                    blocks: a.paste_store.blocks,
                },
                ..a
            },
            None::<CommandView>,
        ),
{
    paste::law_line_ends_are_kept(pasted);
    let t = paste::normalized(pasted);
    let store = a.paste_store.with_text(t);
    let k = store.blocks.len() - 1;
    let p = paste::placeholder_of(store.blocks[k]);
    let b = input::on_paste(a, pasted);
    let e = a.edit();
    editor::lemma_pos(e);
    editor::lemma_typed(e, p);
    editor::lemma_pos(e.typed(p));
    lemma_placeholder_is_trimmed(store.blocks[k]);
    paste::lemma_with_text_wf(a.paste_store, t);
    assert(b.edit() == e.typed(p));
    let front = e.input.take(e.pos());
    assert(b.input.take(b.edit().pos()) =~= front + p);
    paste::lemma_suffix_is_the_paste(store.blocks, k, front);
    paste::law_remove_is_exact(store, k);
    assert(store.blocks.remove(k) =~= a.paste_store.blocks);
    let back = b.edit().without_before(p.len() as int);
    assert(b.input.take(e.pos()) =~= front);
    assert(back.input =~= e.input);
    assert(back == e);
}

/// Ctrl+O shows the trace panel where it is hidden, hides it where it is
/// shown, and does nothing else.
pub proof fn law_trace_key_toggles(a: AppView, key: KeyEvent, f: FactsView)
    requires
        !input::is_modal(a),
        a.slash_completion is None,
        key.code == KeyCode::Char('o'),
        key.modifiers.control,
    ensures
        input::on_key(a, key, f) == (input::debug_toggled(a), None::<CommandView>),
        input::on_key(input::debug_toggled(a), key, f).0 == a,
{
    assert(a.debug.toggled().toggled() == a.debug);
}

/// While the trace panel is shown, Esc closes it: it neither cancels the run
/// nor drops the selection.
pub proof fn law_escape_closes_the_panel(a: AppView, key: KeyEvent, f: FactsView)
    requires
        !input::is_modal(a),
        a.slash_completion is None,
        a.debug.visible,
        key.code == KeyCode::Esc,
    ensures
        input::on_key(a, key, f) == (input::debug_toggled(a), None::<CommandView>),
        !input::on_key(a, key, f).0.debug.visible,
{
}

} // verus!
