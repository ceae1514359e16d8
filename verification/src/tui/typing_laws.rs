//! What the keys do to the input, stated on the text before and after them.

use vstd::prelude::*;
use crate::sandbox::shell_filter::{self, VerdictView};
use crate::text;
use crate::tui::app::AppView;
use crate::tui::editor::{self, between};
use crate::tui::input::{self, on_key};
use crate::tui::intervene;
use crate::tui::keyboard::{KeyCode, KeyEvent, KeyModifiers};
use crate::tui::messages::{CommandView, MessageView, ResponseView};
use crate::tui::paste;
use crate::tui::slash::{self, FactsView};

verus! {

/// Whether a message is a question that was not answered yet.
pub open spec fn is_open_question(m: MessageView) -> bool {
    m matches MessageView::Intervene { responded, .. } && !responded
}

/// Whether nothing stands above the input: no list, question, confirmation,
/// help or popup.
pub open spec fn is_idle(a: AppView) -> bool {
    &&& a.thread_picker is None
    &&& forall|i: int| 0 <= i < a.messages.len() ==> !is_open_question(#[trigger] a.messages[i])
    &&& a.pending_shell_confirm is None
    &&& !a.show_help
    &&& a.slash_completion is None
}

pub proof fn lemma_idle(a: AppView)
    requires
        is_idle(a),
    ensures
        intervene::last_pending(a.messages) < 0,
        !input::is_modal(a),
{
    intervene::lemma_last_pending(a.messages);
    let k = intervene::last_pending(a.messages);
    if k >= 0 {
        assert(!is_open_question(a.messages[k]));
    }
}

/// Whether the cursor of the input stands between `x` and `y`, which make up
/// the text.
pub open spec fn stands_between(a: AppView, x: Seq<char>, y: Seq<char>) -> bool {
    a.input == x + y && a.input_cursor == vstd::utf8::encode_utf8(x).len()
}

/// The state with the text `x + y` and the cursor between the two.
pub open spec fn put_between(a: AppView, x: Seq<char>, y: Seq<char>) -> AppView {
    AppView {
        input: x + y,
        input_cursor: vstd::utf8::encode_utf8(x).len() as int,
        ..a
    }
}

/// A key without modifiers.
pub open spec fn plain(code: KeyCode) -> KeyEvent {
    KeyEvent { code, modifiers: KeyModifiers { shift: false, control: false, command: false } }
}

// ── Editing ─────────────────────────────────────────────────────────────

/// The Delete key removes the character at the cursor, the cursor and all the
/// rest stay; at the end it does nothing.
pub proof fn law_delete_key(
    a: AppView,
    x: Seq<char>,
    c: char,
    y: Seq<char>,
    m: KeyModifiers,
    f: FactsView,
)
    requires
        is_idle(a),
    ensures
        stands_between(a, x, seq![c] + y) ==> on_key(
            a,
            KeyEvent { code: KeyCode::Delete, modifiers: m },
            f,
        ) == (put_between(a, x, y), None::<CommandView>),
        stands_between(a, x, Seq::empty()) ==> on_key(
            a,
            KeyEvent { code: KeyCode::Delete, modifiers: m },
            f,
        ) == (a, None::<CommandView>),
{
    lemma_idle(a);
    editor::law_delete_removes_one_character(x, c, y);
}

/// The Backspace key removes the character before the cursor, where no paste
/// is kept; at the start it does nothing. A popup that was dismissed may open
/// again.
pub proof fn law_backspace_key(
    a: AppView,
    x: Seq<char>,
    c: char,
    y: Seq<char>,
    m: KeyModifiers,
    f: FactsView,
)
    requires
        is_idle(a),
        forall|i: int|
            0 <= i < a.paste_store.blocks.len() ==> !text::finishes_with(
                x.push(c),
                paste::placeholder_of(#[trigger] a.paste_store.blocks[i]),
            ),
    ensures
        stands_between(a, x.push(c), y) ==> on_key(
            a,
            KeyEvent { code: KeyCode::Backspace, modifiers: m },
            f,
        ) == (put_between(AppView { slash_dismissed: false, ..a }, x, y), None::<CommandView>),
        stands_between(a, Seq::empty(), y) ==> on_key(
            a,
            KeyEvent { code: KeyCode::Backspace, modifiers: m },
            f,
        ) == (AppView { slash_dismissed: false, ..a }, None::<CommandView>),
{
    lemma_idle(a);
    editor::law_backspace_removes_one_character(x, c, y);
    if stands_between(a, x.push(c), y) {
        lemma_no_suffix(a.paste_store.blocks, x.push(c));
        lemma_text_before(a, x.push(c), y);
    }
    if stands_between(a, Seq::empty(), y) {
        editor::lemma_between(Seq::empty(), y);
    }
}

proof fn lemma_text_before(a: AppView, x: Seq<char>, y: Seq<char>)
    requires
        stands_between(a, x, y),
    ensures
        a.edit().pos() == x.len(),
        a.input.take(a.edit().pos()) == x,
{
    editor::lemma_between(x, y);
    assert(a.edit() == between(x, y));
    assert((x + y).take(x.len() as int) =~= x);
}

proof fn lemma_no_suffix(blocks: Seq<paste::BlockView>, s: Seq<char>)
    requires
        forall|i: int|
            0 <= i < blocks.len() ==> !text::finishes_with(
                s,
                paste::placeholder_of(#[trigger] blocks[i]),
            ),
    ensures
        paste::suffix_of(blocks, s) is None,
    decreases blocks.len(),
{
    if blocks.len() > 0 {
        let t = blocks.skip(1);
        assert(!text::finishes_with(s, paste::placeholder_of(blocks[0])));
        assert forall|i: int| 0 <= i < t.len() implies !text::finishes_with(
            s,
            paste::placeholder_of(#[trigger] t[i]),
        ) by {
            assert(t[i] == blocks[i + 1]);
        }
        lemma_no_suffix(t, s);
    }
}

/// Behind the placeholder of a paste the Backspace key removes the whole
/// placeholder, and that paste alone with it.
pub proof fn law_backspace_removes_a_paste(
    a: AppView,
    x: Seq<char>,
    k: int,
    y: Seq<char>,
    m: KeyModifiers,
    f: FactsView,
)
    requires
        a.wf(),
        is_idle(a),
        0 <= k < a.paste_store.blocks.len(),
        stands_between(a, x + paste::placeholder_of(a.paste_store.blocks[k]), y),
    ensures
        ({
            let (b, c) = on_key(a, KeyEvent { code: KeyCode::Backspace, modifiers: m }, f);
            &&& c is None
            &&& b.input == x + y && b.input_cursor == vstd::utf8::encode_utf8(x).len()
            &&& b.paste_store.blocks == a.paste_store.blocks.remove(k)
            &&& b.messages == a.messages
        }),
{
    lemma_idle(a);
    let p = paste::placeholder_of(a.paste_store.blocks[k]);
    let z = x + p;
    lemma_text_before(a, z, y);
    paste::lemma_suffix_is_the_paste(a.paste_store.blocks, k, x);
    paste::law_remove_is_exact(a.paste_store, k);
    paste::lemma_placeholder_len(a.paste_store.blocks[k]);
    text::lemma_byte_len_is_utf8(z);
    text::lemma_byte_len_add(x, p);
    text::lemma_byte_len_is_utf8(x);
    text::lemma_byte_len_is_utf8(p);
    assert(a.input.take(z.len() - p.len()) =~= x);
    assert(a.input.skip(z.len() as int) =~= y);
}

/// The arrow keys to the left and right, Home and End move the cursor and
/// change nothing else.
pub proof fn law_moving_keys(
    a: AppView,
    x: Seq<char>,
    c: char,
    y: Seq<char>,
    m: KeyModifiers,
    f: FactsView,
)
    requires
        is_idle(a),
    ensures
        stands_between(a, x.push(c), y) ==> on_key(
            a,
            KeyEvent { code: KeyCode::Left, modifiers: m },
            f,
        ) == (put_between(a, x, seq![c] + y), None::<CommandView>),
        stands_between(a, x, seq![c] + y) ==> on_key(
            a,
            KeyEvent { code: KeyCode::Right, modifiers: m },
            f,
        ) == (put_between(a, x.push(c), y), None::<CommandView>),
        stands_between(a, Seq::empty(), y) ==> on_key(
            a,
            KeyEvent { code: KeyCode::Left, modifiers: m },
            f,
        ) == (a, None::<CommandView>),
        stands_between(a, x, Seq::empty()) ==> on_key(
            a,
            KeyEvent { code: KeyCode::Right, modifiers: m },
            f,
        ) == (a, None::<CommandView>),
        stands_between(a, x, y) ==> on_key(a, KeyEvent { code: KeyCode::Home, modifiers: m }, f)
            == (put_between(a, Seq::empty(), x + y), None::<CommandView>),
        stands_between(a, x, y) ==> on_key(a, KeyEvent { code: KeyCode::End, modifiers: m }, f)
            == (put_between(a, x + y, Seq::empty()), None::<CommandView>),
{
    lemma_idle(a);
    editor::law_steps_move_over_one_character(x, c, y);
    editor::law_home_and_end(x, y);
}

/// A character key types the character at the cursor. A question mark in an
/// empty input opens the help instead, and a slash at the start the popup.
pub proof fn law_character_key(
    a: AppView,
    x: Seq<char>,
    c: char,
    y: Seq<char>,
    shift: bool,
    f: FactsView,
)
    requires
        is_idle(a),
        stands_between(a, x, y),
        c != '?' || a.input.len() > 0 || a.streaming,
        (x + seq![c] + y)[0] != '/',
    ensures
        on_key(
            a,
            KeyEvent {
                code: KeyCode::Char(c),
                modifiers: KeyModifiers { shift, control: false, command: false },
            },
            f,
        ) == (put_between(a, x + seq![c], y), None::<CommandView>),
{
    lemma_idle(a);
    editor::law_typing_inserts(x, seq![c], y);
}

/// Shift and Enter start a new line at the cursor.
pub proof fn law_new_line_key(
    a: AppView,
    x: Seq<char>,
    y: Seq<char>,
    control: bool,
    command: bool,
    f: FactsView,
)
    requires
        is_idle(a),
        stands_between(a, x, y),
    ensures
        on_key(
            a,
            KeyEvent {
                code: KeyCode::Enter,
                modifiers: KeyModifiers { shift: true, control, command },
            },
            f,
        ) == (put_between(a, x + seq!['\n'], y), None::<CommandView>),
{
    lemma_idle(a);
    editor::law_typing_inserts(x, seq!['\n'], y);
}

/// Pasting one line types it at the cursor, and keeps nothing aside.
pub proof fn law_paste_of_one_line(a: AppView, x: Seq<char>, t: Seq<char>, y: Seq<char>)
    requires
        is_idle(a),
        stands_between(a, x, y),
        t.len() > 0,
        !paste::has_line_end(t),
        (x + t + y)[0] != '/',
    ensures
        input::on_paste(a, t) == put_between(a, x + t, y),
{
    lemma_idle(a);
    paste::law_normalized_is_stable(t);
    editor::law_typing_inserts(x, t, y);
}

/// Pasting several lines types a placeholder at the cursor, and keeps the text
/// aside.
pub proof fn law_paste_of_lines(a: AppView, x: Seq<char>, t: Seq<char>, y: Seq<char>)
    requires
        a.wf(),
        is_idle(a),
        stands_between(a, x, y),
        paste::has_line_end(t),
        x.len() + y.len() == 0 || (x + y)[0] != '/',
    ensures
        ({
            let b = input::on_paste(a, t);
            let p = paste::placeholder_of(b.paste_store.blocks.last());
            &&& b.input == x + p + y
            &&& b.input_cursor == vstd::utf8::encode_utf8(x + p).len()
            &&& b.paste_store.blocks.len() == a.paste_store.blocks.len() + 1
            &&& b.paste_store.blocks.last().text == paste::normalized(t)
            &&& b.messages == a.messages
        }),
{
    lemma_idle(a);
    paste::law_line_ends_are_kept(t);
    let store = a.paste_store.with_text(paste::normalized(t));
    let p = paste::placeholder_of(store.blocks.last());
    editor::law_typing_inserts(x, p, y);
    paste::lemma_placeholder_len(store.blocks.last());
    editor::lemma_between(x + p, y);
}

// ── Lines and the history ───────────────────────────────────────────────

/// The arrow keys up and down move the cursor to the line above or below and
/// change nothing else, while no entry of the history is shown.
pub proof fn law_lines_are_walked(a: AppView, k: int, m: KeyModifiers, f: FactsView)
    requires
        a.wf(),
        is_idle(a),
        !a.debug.visible,
        a.history_index is None,
        k == a.edit().pos(),
    ensures
        editor::up_from(a.input, k) matches Some(j) ==> on_key(
            a,
            KeyEvent { code: KeyCode::Up, modifiers: m },
            f,
        ) == (put_between(a, a.input.take(j), a.input.skip(j)), None::<CommandView>),
        editor::down_from(a.input, k) matches Some(j) ==> on_key(
            a,
            KeyEvent { code: KeyCode::Down, modifiers: m },
            f,
        ) == (put_between(a, a.input.take(j), a.input.skip(j)), None::<CommandView>),
{
    lemma_idle(a);
    editor::lemma_pos(a.edit());
    editor::lemma_vertical(a.input, k);
    if editor::up_from(a.input, k) is Some {
        let j = editor::up_from(a.input, k)->0;
        assert(a.input.take(j) + a.input.skip(j) =~= a.input);
        text::lemma_byte_len_is_utf8(a.input.take(j));
    }
    if editor::down_from(a.input, k) is Some {
        let j = editor::down_from(a.input, k)->0;
        assert(a.input.take(j) + a.input.skip(j) =~= a.input);
        text::lemma_byte_len_is_utf8(a.input.take(j));
    }
}

/// On the first line Up shows the last submission, and further steps up the
/// ones before it, the first of them staying; steps down go the other way, and
/// behind the last submission the draft is back. Only the input changes.
pub proof fn law_history_is_walked(a: AppView, m: KeyModifiers, f: FactsView)
    requires
        a.wf(),
        is_idle(a),
        !a.debug.visible,
        a.history.len() <= usize::MAX,
    ensures
        ({
            let (up, c) = on_key(a, KeyEvent { code: KeyCode::Up, modifiers: m }, f);
            let (down, d) = on_key(a, KeyEvent { code: KeyCode::Down, modifiers: m }, f);
            let n = a.history.len();
            let rest = |b: AppView|
                AppView {
                    input: b.input,
                    input_cursor: b.input_cursor,
                    history_index: b.history_index,
                    draft_input: b.draft_input,
                    ..a
                };
            &&& c is None && d is None
            &&& up == rest(up) && down == rest(down)
            &&& up.history_index is Some && up != a ==> up.input_cursor
                == vstd::utf8::encode_utf8(up.input).len()
            &&& a.history_index is Some ==> down.input_cursor == vstd::utf8::encode_utf8(
                down.input,
            ).len()
            &&& a.history_index is None && editor::up_from(a.input, a.edit().pos()) is None && n > 0
                ==> up.input == a.history[n - 1] && up.history_index == Some((n - 1) as usize)
                && up.draft_input == a.input && up.input_cursor == vstd::utf8::encode_utf8(
                up.input,
            ).len()
            &&& a.history_index is None && editor::up_from(a.input, a.edit().pos()) is None && n
                == 0 ==> up == a
            &&& a.history_index is None && editor::down_from(a.input, a.edit().pos()) is None
                ==> down == a
            &&& a.history_index matches Some(i) ==> {
                &&& i > 0 ==> up.input == a.history[i - 1] && up.history_index == Some(
                    (i - 1) as usize,
                ) && up.draft_input == a.draft_input
                &&& i == 0 ==> up == a
                &&& i + 1 < n ==> down.input == a.history[i + 1] && down.history_index == Some(
                    (i + 1) as usize,
                ) && down.draft_input == a.draft_input
                &&& i + 1 >= n ==> down.input == a.draft_input && down.history_index is None
            }
        }),
{
    lemma_idle(a);
    if a.history.len() > 0 {
        text::lemma_byte_len_is_utf8(a.history.last());
    }
    text::lemma_byte_len_is_utf8(on_key(a, KeyEvent { code: KeyCode::Up, modifiers: m }, f).0.input);
    text::lemma_byte_len_is_utf8(
        on_key(a, KeyEvent { code: KeyCode::Down, modifiers: m }, f).0.input,
    );
}

// ── Submitting ──────────────────────────────────────────────────────────

/// The state `b` as far as a submission touches it, and else the state `a`.
pub open spec fn only_sent(a: AppView, b: AppView) -> AppView {
    AppView {
        messages: b.messages,
        input: b.input,
        input_cursor: b.input_cursor,
        input_scroll_offset: b.input_scroll_offset,
        paste_store: b.paste_store,
        history: b.history,
        history_index: b.history_index,
        draft_input: b.draft_input,
        slash_dismissed: b.slash_dismissed,
        last_submitted_input: b.last_submitted_input,
        streaming: b.streaming,
        scroll_offset: b.scroll_offset,
        auto_scroll: b.auto_scroll,
        ..a
    }
}

/// A message that is no command is sent to the agent as it was typed, without
/// the white space around it and with the pastes in their places: it is shown, remembered, and can be sent again;
/// the input is empty afterwards, and the end of the chat is in view.
pub proof fn law_messages_are_sent(
    a: AppView,
    lead: Seq<char>,
    s: Seq<char>,
    trail: Seq<char>,
    control: bool,
    command: bool,
    f: FactsView,
)
    requires
        is_idle(a),
        !a.streaming,
        text::is_blank(lead),
        text::is_blank(trail),
        s.len() > 0,
        text::is_bare(s),
        s[0] != '/',
        s[0] != '!' || (s.len() > 1 && s[1] == '!'),
        a.input == lead + s + trail,
        !text::is_blank(paste::expanded(a.paste_store.blocks, s)),
    ensures
        ({
            let (b, c) = on_key(
                a,
                KeyEvent {
                    code: KeyCode::Enter,
                    modifiers: KeyModifiers { shift: false, control, command },
                },
                f,
            );
            let e = paste::expanded(a.paste_store.blocks, s);
            &&& a.paste_store.blocks.len() == 0 ==> e == s
            &&& c == Some(CommandView::RunAgent(e))
            &&& b.messages == a.messages.push(
                MessageView::User { content: e, timestamp: f.now },
            )
            &&& b.input.len() == 0 && b.input_cursor == 0 && b.paste_store.blocks.len() == 0
            &&& b.history == a.history.push(e) && b.history_index is None
            &&& b.last_submitted_input == Some(e)
            &&& b.streaming && b.scroll_offset == 0 && b.auto_scroll
            &&& b == only_sent(a, b)
        }),
{
    lemma_idle(a);
    text::law_trimming(lead, s, trail);
    let none = Seq::<char>::empty();
    assert(none + s + none =~= s);
    text::law_trimming(none, s, none);
    reveal_strlit("!!");
    if s.len() > 1 {
        assert(s.subrange(0, 2) =~= seq![s[0], s[1]]);
        assert("!!"@ =~= seq!['!', '!']);
    }
    let e = paste::expanded(a.paste_store.blocks, s);
    text::lemma_trimmed_is_inside(e);
    let b = input::remembered(
        AppView { slash_completion: None, slash_dismissed: false, ..a },
        e,
    );
    crate::tui::key_laws::law_commands_begin_with_a_slash(b, s, f);
}

/// White space alone is not sent, and is not kept.
pub proof fn law_nothing_is_not_sent(a: AppView, control: bool, command: bool, f: FactsView)
    requires
        is_idle(a),
        text::is_blank(a.input),
    ensures
        ({
            let (b, c) = on_key(
                a,
                KeyEvent {
                    code: KeyCode::Enter,
                    modifiers: KeyModifiers { shift: false, control, command },
                },
                f,
            );
            c is None && b.messages == a.messages && b.history == a.history && b.input.len() == 0
                && b.streaming == a.streaming
        }),
{
    lemma_idle(a);
    let none = Seq::<char>::empty();
    assert(a.input + none + none =~= a.input);
    text::law_trimming(a.input, none, none);
}

/// While the agent runs, what is submitted is a hint for it, whatever it is:
/// it is queued behind the others and shown, and nothing is run.
pub proof fn law_hints_are_queued(
    a: AppView,
    lead: Seq<char>,
    s: Seq<char>,
    trail: Seq<char>,
    f: FactsView,
)
    requires
        is_idle(a),
        a.streaming,
        text::is_blank(lead),
        text::is_blank(trail),
        s.len() > 0,
        text::is_bare(s),
        a.input == lead + s + trail,
        !text::is_blank(paste::expanded(a.paste_store.blocks, s)),
    ensures
        ({
            let (b, c) = on_key(a, plain(KeyCode::Enter), f);
            let e = paste::expanded(a.paste_store.blocks, s);
            &&& c is None
            &&& b.pending_hints == a.pending_hints.push(e)
            &&& b.messages == a.messages.push(
                MessageView::User { content: e, timestamp: f.now },
            )
            &&& b.streaming && b.input.len() == 0 && b.history == a.history.push(e)
            &&& b == (AppView { pending_hints: b.pending_hints, ..only_sent(a, b) })
            &&& b.last_submitted_input == a.last_submitted_input
        }),
{
    lemma_idle(a);
    text::law_trimming(lead, s, trail);
    text::lemma_trimmed_is_inside(paste::expanded(a.paste_store.blocks, s));
}

/// A command behind a `!` runs where the sandbox lets it, waits for the user
/// where it asks, and is refused with the reason where it is blocked: then
/// nothing runs.
pub proof fn law_shell_commands_go_by_the_policy(
    a: AppView,
    gap: Seq<char>,
    w: Seq<char>,
    trail: Seq<char>,
    f: FactsView,
)
    requires
        is_idle(a),
        !a.streaming,
        a.paste_store.blocks.len() == 0,
        text::is_blank(gap),
        text::is_blank(trail),
        w.len() > 0,
        text::is_bare(w),
        w[0] != '!' || gap.len() > 0,
        a.input == seq!['!'] + gap + w + trail,
    ensures
        ({
            let (b, c) = on_key(a, plain(KeyCode::Enter), f);
            let v = shell_filter::classified(a.shell_filter, w);
            &&& b.input.len() == 0 && b.streaming == a.streaming
            &&& v is AutoApproved ==> c == Some(CommandView::RunShell(w)) && b.messages
                == a.messages && b.pending_shell_confirm is None
            &&& v is RequiresApproval ==> c is None && b.pending_shell_confirm == Some(w)
                && b.messages.len() == a.messages.len() + 1
            &&& v matches VerdictView::Blocked { reason } ==> c is None
                && b.pending_shell_confirm is None && b.messages.len() == a.messages.len() + 1 && (
            b.messages.last() matches MessageView::Error { content, .. } && text::finishes_with(
                content,
                reason,
            ))
        }),
{
    lemma_idle(a);
    let raw = seq!['!'] + gap + w;
    let none = Seq::<char>::empty();
    assert(none + raw + trail =~= a.input);
    assert(raw.last() == w.last());
    text::law_trimming(none, raw, trail);
    assert(none + raw + none =~= raw);
    text::law_trimming(none, raw, none);
    assert(raw.skip(1) =~= gap + w + none);
    text::law_trimming(gap, w, none);
    reveal_strlit("!!");
    assert("!!"@ =~= seq!['!', '!']);
    if gap.len() > 0 {
        assert(text::is_space(gap[0]));
        assert(raw[1] == gap[0]);
    } else {
        assert(raw[1] == w[0]);
    }
    assert(raw[1] != '!');
    assert(raw.subrange(0, 2)[1] == raw[1]);
    match shell_filter::classified(a.shell_filter, w) {
        VerdictView::Blocked { reason } => {
            let content = "Blocked by sandbox policy: "@ + reason;
            assert(content.subrange(content.len() - reason.len(), content.len() as int) =~= reason);
        },
        _ => {},
    }
}

/// A lone `!` only says how it is used.
pub proof fn law_a_lone_mark_runs_nothing(a: AppView, trail: Seq<char>, f: FactsView)
    requires
        is_idle(a),
        !a.streaming,
        a.paste_store.blocks.len() == 0,
        text::is_blank(trail),
        a.input == seq!['!'] + trail,
    ensures
        ({
            let (b, c) = on_key(a, plain(KeyCode::Enter), f);
            c is None && b.pending_shell_confirm is None && b.messages.len() == a.messages.len()
                + 1 && b.streaming == a.streaming
        }),
{
    lemma_idle(a);
    let raw = seq!['!'];
    let none = Seq::<char>::empty();
    assert(none + raw + trail =~= a.input);
    text::law_trimming(none, raw, trail);
    assert(none + raw + none =~= raw);
    text::law_trimming(none, raw, none);
    assert(raw.skip(1) =~= none + none + none);
    text::law_trimming(none, none, none);
    reveal_strlit("!!");
}

/// A slash command that is submitted does what it does, with the input empty
/// and the submission remembered afterwards; it is not sent to the agent as a
/// message.
#[verifier::rlimit(60)]
#[verifier::spinoff_prover]
pub proof fn law_commands_are_carried_out(
    a: AppView,
    lead: Seq<char>,
    s: Seq<char>,
    trail: Seq<char>,
    f: FactsView,
)
    requires
        is_idle(a),
        !a.streaming,
        a.paste_store.blocks.len() == 0,
        text::is_blank(lead),
        text::is_blank(trail),
        s.len() > 0,
        text::is_bare(s),
        s[0] == '/',
        a.input == lead + s + trail,
    ensures
        ({
            let (b, c) = on_key(a, plain(KeyCode::Enter), f);
            let known = AppView {
                slash_dismissed: false,
                history: a.history.push(s),
                history_index: None,
                draft_input: Seq::empty(),
                ..a
            };
            &&& slash::on_slash(known, s, f) matches Some((d, e)) ==> c == e && b.messages
                == d.messages && b.plan_active == d.plan_active && b.should_quit == d.should_quit
                && b.active_skills == d.active_skills && b.conversation_title
                == d.conversation_title && b.debug == d.debug && b.streaming == d.streaming
            &&& slash::on_slash(known, s, f) is None ==> c == Some(CommandView::RunAgent(s))
            &&& b.input.len() == 0 && b.history == a.history.push(s)
        }),
{
    lemma_idle(a);
    text::law_trimming(lead, s, trail);
    let none = Seq::<char>::empty();
    assert(none + s + none =~= s);
    text::law_trimming(none, s, none);
    let b = AppView { slash_completion: None, slash_dismissed: false, ..a };
    let known = AppView {
        slash_dismissed: false,
        history: a.history.push(s),
        history_index: None,
        draft_input: Seq::empty(),
        ..a
    };
    assert(input::remembered(b, s) == known);
    assert(on_key(a, plain(KeyCode::Enter), f) == input::on_submission(b, s, s, f));
}

// ── Other keys ──────────────────────────────────────────────────────────

/// A key with the control key held.
pub open spec fn with_control(c: char) -> KeyEvent {
    KeyEvent {
        code: KeyCode::Char(c),
        modifiers: KeyModifiers { shift: false, control: true, command: false },
    }
}

/// Ctrl+V asks for the clipboard; Ctrl+C cancels a run, and else only shows a
/// hint; Ctrl+D leaves from an empty input, and else deletes; Esc cancels a
/// run, but drops a selection first. Nothing is typed by any of them.
pub proof fn law_control_keys(a: AppView, x: Seq<char>, c: char, y: Seq<char>, f: FactsView)
    requires
        is_idle(a),
    ensures
        on_key(a, with_control('v'), f) == (a, Some(CommandView::ReadClipboard)),
        a.selection is None && a.streaming ==> on_key(a, with_control('c'), f) == (
            AppView { streaming: false, ..a },
            Some(CommandView::CancelGeneration),
        ),
        a.selection is None && !a.streaming ==> ({
            let (b, d) = on_key(a, with_control('c'), f);
            d is None && b.messages.len() == a.messages.len() + 1 && b.input == a.input
                && !b.streaming && b.should_quit == a.should_quit
        }),
        a.input.len() == 0 && !a.streaming ==> on_key(a, with_control('d'), f) == (
            AppView { should_quit: true, ..a },
            Some(CommandView::Exit),
        ),
        stands_between(a, x, seq![c] + y) ==> on_key(a, with_control('d'), f) == (
            put_between(a, x, y),
            None::<CommandView>,
        ),
        !a.debug.visible && a.selection is Some ==> on_key(a, plain(KeyCode::Esc), f) == (
            AppView { selection: None, ..a },
            None::<CommandView>,
        ),
        !a.debug.visible && a.selection is None && a.streaming ==> on_key(
            a,
            plain(KeyCode::Esc),
            f,
        ) == (AppView { streaming: false, ..a }, Some(CommandView::CancelGeneration)),
        !a.debug.visible && a.selection is None && !a.streaming ==> on_key(
            a,
            plain(KeyCode::Esc),
            f,
        ) == (a, None::<CommandView>),
{
    lemma_idle(a);
    editor::law_delete_removes_one_character(x, c, y);
}

/// Ctrl+R sends the last message again, as the user's, unless the agent runs
/// or nothing was sent yet.
pub proof fn law_retry_key(a: AppView, f: FactsView)
    requires
        is_idle(a),
    ensures
        ({
            let (b, c) = on_key(a, with_control('r'), f);
            &&& !a.streaming && (a.last_submitted_input is Some) ==> c == Some(
                CommandView::RunAgent(a.last_submitted_input->0),
            ) && b.streaming && b.messages == a.messages.push(
                MessageView::User { content: a.last_submitted_input->0, timestamp: f.now },
            ) && b.input == a.input
            &&& a.streaming || a.last_submitted_input is None ==> b == a && c is None
        }),
{
    lemma_idle(a);
}

/// The page keys scroll the chat by a fixed number of rows, one against the
/// other, and touch nothing else; at the bottom new content is followed again.
pub proof fn law_page_keys(a: AppView, f: FactsView)
    requires
        is_idle(a),
        a.scroll_offset + 8 <= usize::MAX,
    ensures
        on_key(a, plain(KeyCode::PageUp), f) == (
            AppView {
                scroll_offset: (a.scroll_offset + 8) as usize,
                auto_scroll: false,
                ..a
            },
            None::<CommandView>,
        ),
        a.scroll_offset > 8 ==> on_key(a, plain(KeyCode::PageDown), f) == (
            AppView { scroll_offset: (a.scroll_offset - 8) as usize, ..a },
            None::<CommandView>,
        ),
        a.scroll_offset <= 8 ==> on_key(a, plain(KeyCode::PageDown), f) == (
            AppView { scroll_offset: 0, auto_scroll: true, ..a },
            None::<CommandView>,
        ),
{
    lemma_idle(a);
}

/// F1, and a question mark in an empty input, open the help; Esc, Enter, F1
/// and a question mark close it, and other keys leave it open. Nothing is
/// typed.
pub proof fn law_help_keys(a: AppView, f: FactsView)
    requires
        is_idle(a),
    ensures
        ({
            let shown = AppView { show_help: true, ..a };
            &&& on_key(a, plain(KeyCode::F(1)), f) == (shown, None::<CommandView>)
            &&& a.input.len() == 0 && !a.streaming ==> on_key(a, plain(KeyCode::Char('?')), f) == (
                shown,
                None::<CommandView>,
            )
            &&& on_key(shown, plain(KeyCode::F(1)), f) == (a, None::<CommandView>)
            &&& on_key(shown, plain(KeyCode::Esc), f) == (a, None::<CommandView>)
            &&& on_key(shown, plain(KeyCode::Enter), f) == (a, None::<CommandView>)
            &&& on_key(shown, plain(KeyCode::Char('?')), f) == (a, None::<CommandView>)
            &&& on_key(shown, plain(KeyCode::Char('x')), f) == (shown, None::<CommandView>)
            &&& on_key(shown, plain(KeyCode::Up), f) == (shown, None::<CommandView>)
        }),
{
    lemma_idle(a);
}

/// In the list of conversations Enter loads the highlighted one, Esc closes
/// the list, and the arrow keys move the highlight by one, within the list.
pub proof fn law_picker_keys(a: AppView, f: FactsView)
    requires
        a.wf(),
        a.thread_picker is Some,
        a.thread_picker->0.threads.len() <= usize::MAX,
    ensures
        ({
            let p = a.thread_picker->0;
            let (b, c) = on_key(a, plain(KeyCode::Enter), f);
            let (d, e) = on_key(a, plain(KeyCode::Esc), f);
            let (up, u) = on_key(a, plain(KeyCode::Up), f);
            let (down, w) = on_key(a, plain(KeyCode::Down), f);
            &&& c == Some(CommandView::LoadConversation(p.threads[p.selected as int].name))
            &&& b == (AppView { thread_picker: None, ..a })
            &&& d == b && e is None && u is None && w is None
            &&& up.thread_picker matches Some(q) && q.threads == p.threads && q.selected == (
            if p.selected == 0 {
                0int
            } else {
                p.selected - 1
            })
            &&& down.thread_picker matches Some(q) && q.threads == p.threads && q.selected == (
            if p.selected == p.threads.len() - 1 {
                p.selected as int
            } else {
                p.selected + 1
            })
        }),
{
}

/// A command that waits for the user runs on a yes, is dropped on a no with a
/// word to the user, and waits on with any other key.
pub proof fn law_confirming_keys(a: AppView, w: Seq<char>, code: KeyCode, f: FactsView)
    requires
        a.thread_picker is None,
        forall|i: int| 0 <= i < a.messages.len() ==> !is_open_question(#[trigger] a.messages[i]),
        a.pending_shell_confirm == Some(w),
    ensures
        ({
            let (b, c) = on_key(a, plain(code), f);
            let yes = code == KeyCode::Char('y') || code == KeyCode::Char('Y') || code
                == KeyCode::Enter;
            let no = code == KeyCode::Char('n') || code == KeyCode::Char('N') || code
                == KeyCode::Esc;
            &&& yes ==> c == Some(CommandView::RunShell(w)) && b.pending_shell_confirm is None
                && b.messages == a.messages
            &&& no ==> c is None && b.pending_shell_confirm is None && b.messages.len()
                == a.messages.len() + 1
            &&& !yes && !no ==> b == a && c is None
        }),
{
    intervene::lemma_last_pending(a.messages);
    let k = intervene::last_pending(a.messages);
    if k >= 0 {
        assert(!is_open_question(a.messages[k]));
    }
}

// ── Questions ───────────────────────────────────────────────────────────

/// Whether the message `i` is the question that the keys answer: it is open,
/// no later one is, and it has options.
pub open spec fn is_asked(a: AppView, i: int, options: Seq<Seq<char>>, id: Seq<char>) -> bool {
    &&& a.thread_picker is None
    &&& 0 <= i < a.messages.len()
    &&& a.messages[i] matches MessageView::Intervene { request_id, options: o, responded, .. }
        && !responded && o == options && request_id == id
    &&& forall|j: int| i < j < a.messages.len() ==> !(#[trigger] a.messages[j] is Intervene)
}

pub proof fn lemma_asked(a: AppView, i: int, options: Seq<Seq<char>>, id: Seq<char>)
    requires
        is_asked(a, i, options, id),
    ensures
        intervene::last_pending(a.messages) == i,
        intervene::pending_options(a.messages) == options,
        intervene::option_count(a.messages) == options.len(),
{
    intervene::lemma_last_pending(a.messages);
    let k = intervene::last_pending(a.messages);
    assert(intervene::is_pending(a.messages[i]));
    if k > i {
        assert(!(a.messages[k] is Intervene));
    }
    lemma_option_count(a.messages, i);
}

proof fn lemma_option_count(ms: Seq<MessageView>, i: int)
    requires
        0 <= i < ms.len(),
        ms[i] is Intervene,
        forall|j: int| i < j < ms.len() ==> !(#[trigger] ms[j] is Intervene),
    ensures
        intervene::option_count(ms) == ms[i]->Intervene_options.len(),
    decreases ms.len(),
{
    if i < ms.len() - 1 {
        let front = ms.drop_last();
        assert(!(ms[ms.len() - 1] is Intervene));
        assert(front[i] == ms[i]);
        assert forall|j: int| i < j < front.len() implies !(#[trigger] front[j] is Intervene) by {
            assert(front[j] == ms[j]);
        }
        lemma_option_count(front, i);
    }
}

/// Among the options of a question Enter answers with the highlighted one, Esc
/// with none, and the arrow keys move the highlight by one, within the
/// options. An answer goes to the one who asked, and closes the question; the
/// input stays as it is. An option that ends in `…` asks for a text instead.
pub proof fn law_option_keys(
    a: AppView,
    i: int,
    options: Seq<Seq<char>>,
    id: Seq<char>,
    n: usize,
    f: FactsView,
)
    requires
        is_asked(a, i, options, id),
        !a.intervene_text_mode,
        a.intervene_selection == Some(n),
        n < options.len(),
    ensures
        ({
            let (b, c) = on_key(a, plain(KeyCode::Enter), f);
            let (d, e) = on_key(a, plain(KeyCode::Esc), f);
            let (up, u) = on_key(a, plain(KeyCode::Up), f);
            let (down, w) = on_key(a, plain(KeyCode::Down), f);
            let free = options[n as int].len() > 0 && options[n as int].last() == '…';
            &&& !free ==> c == Some(
                CommandView::InterventionResponse {
                    request_id: id,
                    response: ResponseView { chosen: Some(n), custom_text: None },
                },
            ) && !is_open_question(b.messages[i]) && b.messages.len() == a.messages.len()
                && b.input == a.input
            &&& free ==> c is None && b.intervene_text_mode && b.messages == a.messages
                && b.input.len() == 0
            &&& e == Some(
                CommandView::InterventionResponse {
                    request_id: id,
                    response: ResponseView { chosen: None, custom_text: None },
                },
            ) && !is_open_question(d.messages[i]) && d.input == a.input
            &&& u is None && w is None && up.messages == a.messages && down.messages == a.messages
            &&& up.intervene_selection == Some(
                if n == 0 {
                    0usize
                } else {
                    (n - 1) as usize
                },
            )
            &&& down.intervene_selection == Some(
                if n == options.len() - 1 {
                    n
                } else {
                    (n + 1) as usize
                },
            )
        }),
{
    lemma_asked(a, i, options, id);
}

/// While the user writes an answer, Enter sends it with the option that it is
/// for, Esc goes back to the options, and both give the input of before back;
/// an empty answer is none.
pub proof fn law_answering_keys(
    a: AppView,
    i: int,
    options: Seq<Seq<char>>,
    id: Seq<char>,
    n: usize,
    f: FactsView,
)
    requires
        is_asked(a, i, options, id),
        a.intervene_text_mode,
        a.intervene_selection == Some(n),
    ensures
        ({
            let (b, c) = on_key(a, plain(KeyCode::Enter), f);
            let (d, e) = on_key(a, plain(KeyCode::Esc), f);
            &&& c == Some(
                CommandView::InterventionResponse {
                    request_id: id,
                    response: ResponseView {
                        chosen: Some(n),
                        custom_text: if a.input.len() == 0 {
                            None
                        } else {
                            Some(a.input)
                        },
                    },
                },
            )
            &&& !is_open_question(b.messages[i]) && b.input == a.intervene_saved_input
            &&& e is None && !d.intervene_text_mode && d.messages == a.messages && d.input
                == a.intervene_saved_input && d.input_cursor == a.intervene_saved_cursor
        }),
{
    lemma_asked(a, i, options, id);
}

// ── The popup ───────────────────────────────────────────────────────────

/// In the popup Tab puts the highlighted command into the input, Esc dismisses
/// the popup and keeps the input, and the arrow keys move the highlight by
/// one, within the popup. None of them runs anything.
pub proof fn law_popup_keys(a: AppView, f: FactsView)
    requires
        a.wf(),
        is_idle(AppView { slash_completion: None, ..a }),
        a.slash_completion is Some,
        a.slash_completion->0.matches.len() <= usize::MAX,
    ensures
        ({
            let p = a.slash_completion->0;
            let (tab, t) = on_key(a, plain(KeyCode::Tab), f);
            let (esc, e) = on_key(a, plain(KeyCode::Esc), f);
            let (up, u) = on_key(a, plain(KeyCode::Up), f);
            let (down, w) = on_key(a, plain(KeyCode::Down), f);
            &&& t is None && e is None && u is None && w is None
            &&& tab.input == seq!['/'] + p.matches[p.selected as int].name + seq![' ']
            &&& tab.input_cursor == vstd::utf8::encode_utf8(tab.input).len()
            &&& tab.slash_completion is None && tab.messages == a.messages
            &&& esc == (AppView { slash_completion: None, slash_dismissed: true, ..a })
            &&& up.slash_completion matches Some(q) && q.matches == p.matches && q.selected == (
            if p.selected == 0 {
                0int
            } else {
                p.selected - 1
            })
            &&& down.slash_completion matches Some(q) && q.matches == p.matches && q.selected == (
            if p.selected == p.matches.len() - 1 {
                p.selected as int
            } else {
                p.selected + 1
            })
            &&& up.input == a.input && down.input == a.input
        }),
{
    let b = AppView { slash_completion: None, ..a };
    lemma_idle(b);
    reveal_strlit("/");
    reveal_strlit(" ");
    assert("/"@ =~= seq!['/']);
    assert(" "@ =~= seq![' ']);
    let (tab, t) = on_key(a, plain(KeyCode::Tab), f);
    text::lemma_byte_len_is_utf8(tab.input);
}

/// A slash at the start of the input opens the popup, and what is typed behind
/// it narrows the popup down, whatever its case; not during a run, nor once the
/// popup was dismissed.
pub proof fn law_popup_opens(a: AppView, x: Seq<char>, c: char, y: Seq<char>, f: FactsView)
    requires
        is_idle(a),
        stands_between(a, x, y),
        c != '?' || a.input.len() > 0 || a.streaming,
        (x + seq![c] + y)[0] == '/',
    ensures
        ({
            let (b, d) = on_key(a, plain(KeyCode::Char(c)), f);
            let typed = put_between(a, x + seq![c], y);
            &&& d is None
            &&& a.streaming || a.slash_dismissed ==> b == typed
            &&& !a.streaming && !a.slash_dismissed ==> b == (AppView {
                slash_completion: slash::completion_for(
                    text::lowercase((x + seq![c] + y).skip(1)),
                    None,
                ),
                ..typed
            })
        }),
{
    lemma_idle(a);
    editor::law_typing_inserts(x, seq![c], y);
}

/// With the popup open, what is typed narrows it down, and what is deleted
/// widens it; it closes with the slash. The text is edited as it is without it.
pub proof fn law_popup_is_narrowed(a: AppView, x: Seq<char>, c: char, y: Seq<char>, f: FactsView)
    requires
        is_idle(AppView { slash_completion: None, ..a }),
        a.slash_completion is Some,
    ensures
        ({
            let to = |p: Seq<char>, q: Seq<char>|
                AppView {
                    slash_completion: slash::completion_for(
                        text::lowercase((p + q).skip(1)),
                        Some(a.slash_completion->0.selected),
                    ),
                    ..put_between(a, p, q)
                };
            &&& stands_between(a, x, y) ==> on_key(a, plain(KeyCode::Char(c)), f) == (
                to(x + seq![c], y),
                None::<CommandView>,
            )
            &&& stands_between(a, x.push(c), y) && text::first_is(x + y, '/') ==> on_key(
                a,
                plain(KeyCode::Backspace),
                f,
            ) == (to(x, y), None::<CommandView>)
            &&& stands_between(a, x.push(c), y) && !text::first_is(x + y, '/') ==> on_key(
                a,
                plain(KeyCode::Backspace),
                f,
            ) == (
                AppView { slash_completion: None, ..put_between(a, x, y) },
                None::<CommandView>,
            )
        }),
{
    lemma_idle(AppView { slash_completion: None, ..a });
    editor::law_typing_inserts(x, seq![c], y);
    editor::law_backspace_removes_one_character(x, c, y);
}

/// In the popup Enter runs the highlighted command, as if it had been typed and
/// submitted; one that needs an argument is put into the input instead.
pub proof fn law_popup_enter(a: AppView, f: FactsView)
    requires
        a.wf(),
        is_idle(AppView { slash_completion: None, ..a }),
        a.slash_completion is Some,
    ensures
        ({
            let p = a.slash_completion->0;
            let chosen = p.matches[p.selected as int];
            let word = seq!['/'] + chosen.name + seq![' '];
            let typed = put_between(
                AppView { slash_completion: None, ..a },
                word,
                Seq::empty(),
            );
            &&& chosen.usage.contains('<') ==> on_key(a, plain(KeyCode::Enter), f) == (
                typed,
                None::<CommandView>,
            )
            &&& !chosen.usage.contains('<') ==> on_key(a, plain(KeyCode::Enter), f) == on_key(
                typed,
                plain(KeyCode::Enter),
                f,
            )
            &&& on_key(a, plain(KeyCode::Right), f) == (typed, None::<CommandView>)
        }),
{
    let b = AppView { slash_completion: None, ..a };
    lemma_idle(b);
    let p = a.slash_completion->0;
    let word = seq!['/'] + p.matches[p.selected as int].name + seq![' '];
    let typed = put_between(b, word, Seq::empty());
    reveal_strlit("/");
    reveal_strlit(" ");
    assert("/"@ =~= seq!['/']);
    assert(" "@ =~= seq![' ']);
    assert(word + Seq::<char>::empty() =~= word);
    text::lemma_byte_len_is_utf8(word);
    assert(slash::accepted(a) == typed);
    lemma_idle(typed);
}

/// While the trace is shown the arrow keys scroll it by one event, and the
/// input stays; Ctrl+O shows and hides it.
pub proof fn law_trace_keys(a: AppView, f: FactsView)
    requires
        is_idle(a),
        a.debug.scroll_offset < usize::MAX,
    ensures
        ({
            let (up, c) = on_key(a, plain(KeyCode::Up), f);
            let (down, d) = on_key(a, plain(KeyCode::Down), f);
            let (o, e) = on_key(a, with_control('o'), f);
            &&& c is None && d is None && e is None
            &&& a.debug.visible ==> up.debug.scroll_offset == a.debug.scroll_offset + 1 && up == (
            AppView { debug: up.debug, ..a }) && up.debug.visible && up.debug.events
                == a.debug.events
            &&& a.debug.visible && a.debug.scroll_offset > 0 ==> down.debug.scroll_offset
                == a.debug.scroll_offset - 1
            &&& a.debug.visible && a.debug.scroll_offset == 0 ==> down.debug.scroll_offset == 0
            &&& a.debug.visible ==> down == (AppView { debug: down.debug, ..a })
            &&& o == (AppView { debug: o.debug, ..a }) && o.debug.visible != a.debug.visible
                && o.debug.events == a.debug.events
        }),
{
    lemma_idle(a);
}

/// With the popup open, a key that has no meaning in it closes it and does what
/// it does else.
pub proof fn law_popup_lets_keys_through(a: AppView, key: KeyEvent, f: FactsView)
    requires
        is_idle(AppView { slash_completion: None, ..a }),
        a.slash_completion is Some,
        key.code is Delete || key.code is Left || key.code is Home || key.code is End || key.code
            is PageUp || key.code is PageDown || (key.code is Char && key.modifiers.control),
    ensures
        on_key(a, key, f) == on_key(AppView { slash_completion: None, ..a }, key, f),
{
    lemma_idle(AppView { slash_completion: None, ..a });
}

/// A character with the control key held is never typed, and where it is no
/// shortcut nothing happens.
pub proof fn law_controls_are_not_typed(a: AppView, c: char, f: FactsView)
    requires
        is_idle(a),
    ensures
        c != 'd' ==> on_key(a, with_control(c), f).0.input == a.input,
        c != 'v' && c != 'c' && c != 'd' && c != 'r' && c != 'o' ==> on_key(a, with_control(c), f)
            == (a, None::<CommandView>),
{
    lemma_idle(a);
}

/// In the list of conversations all other keys do nothing.
pub proof fn law_picker_takes_the_keys(a: AppView, key: KeyEvent, f: FactsView)
    requires
        a.thread_picker is Some,
        !(key.code is Up),
        !(key.code is Down),
        !(key.code is Enter),
        !(key.code is Esc),
    ensures
        on_key(a, key, f) == (a, None::<CommandView>),
{
}

/// Without a highlight among the options the first one counts as highlighted.
pub proof fn law_first_option_is_the_default(
    a: AppView,
    i: int,
    options: Seq<Seq<char>>,
    id: Seq<char>,
    key: KeyEvent,
    f: FactsView,
)
    requires
        is_asked(a, i, options, id),
        options.len() > 0,
        !a.intervene_text_mode,
        a.intervene_selection is None || a.intervene_selection->0 >= options.len(),
    ensures
        on_key(a, key, f) == on_key(AppView { intervene_selection: Some(0), ..a }, key, f),
{
    let b = AppView { intervene_selection: Some(0), ..a };
    lemma_asked(a, i, options, id);
    lemma_asked(b, i, options, id);
}

} // verus!
