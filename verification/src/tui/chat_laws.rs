//! What shortcuts, answers and the mouse do in the chat, stated on what is
//! shown.

use vstd::prelude::*;
use crate::text;
use crate::text_laws;
use crate::tui::app::AppView;
use crate::tui::editor;
use crate::tui::input::on_key;
use crate::tui::intervene;
use crate::tui::keyboard::{KeyCode, KeyEvent, KeyModifiers, Platform};
use crate::tui::messages::{
    self, CallOrigin, CommandView, InfoView, MessageView, SelectionState, ToolCallStateView,
};
use crate::tui::paste;
use crate::tui::selection::{self, on_mouse, MouseEvent, MouseKind};
use crate::tui::slash::{self, FactsView};
use crate::tui::typing_laws::{is_asked, is_idle, plain, put_between, stands_between, with_control};

verus! {

// ── Shortcuts ───────────────────────────────────────────────────────────

/// A key with the command key held.
pub open spec fn with_command(c: char) -> KeyEvent {
    KeyEvent {
        code: KeyCode::Char(c),
        modifiers: KeyModifiers { shift: false, control: false, command: true },
    }
}

/// A finished selection is copied by the command key and `c` on macOS, and by
/// the control key and `c` elsewhere: the text is handed out, and the selection
/// is gone.
pub proof fn law_selections_are_copied(a: AppView, f: FactsView)
    requires
        is_idle(a),
        a.selection is Some,
        !a.selection->0.dragging,
    ensures
        ({
            let copied = (
                AppView { selection: None, ..a },
                Some(CommandView::CopyText(selection::selection_text(a))),
            );
            &&& a.platform == Platform::MacOs ==> on_key(a, with_command('c'), f) == copied
            &&& a.platform != Platform::MacOs ==> on_key(a, with_control('c'), f) == copied
        }),
{
    crate::tui::typing_laws::lemma_idle(a);
}

/// On macOS the command key and `v` ask for the clipboard too.
pub proof fn law_command_key_pastes(a: AppView, f: FactsView)
    requires
        is_idle(a),
        a.platform == Platform::MacOs,
    ensures
        on_key(a, with_command('v'), f) == (a, Some(CommandView::ReadClipboard)),
{
    crate::tui::typing_laws::lemma_idle(a);
}

// ── Commands ────────────────────────────────────────────────────────────

/// Whether a word is the name of a command.
pub open spec fn is_command(name: Seq<char>) -> bool {
    ||| name == "exit"@
    ||| name == "new"@
    ||| name == "init"@
    ||| name == "plan"@
    ||| name == "approve"@
    ||| name == "save"@
    ||| name == "resume"@
    ||| name == "threads"@
    ||| name == "stats"@
    ||| name == "tools"@
    ||| name == "skill"@
    ||| name == "debug"@
    ||| name == "trace-save"@
    ||| name == "help"@
}

/// Every command is offered in the popup where what was typed begins its name,
/// and nothing else is.
pub proof fn law_commands_are_offered(filter: Seq<char>, previous: Option<usize>, name: Seq<char>)
    ensures
        (slash::completion_for(filter, previous) matches Some(c) && exists|i: int|
            0 <= i < c.matches.len() && (#[trigger] c.matches[i]).name == name) <==> (
        text::begins_with(name, filter) && is_command(name)),
{
    slash::law_popup_lists_matches(filter, previous, name);
    let t = messages::command_table();
    assert(t.len() == 14);
    assert(t[0].name == "exit"@);
    assert(t[1].name == "new"@);
    assert(t[2].name == "init"@);
    assert(t[3].name == "plan"@);
    assert(t[4].name == "approve"@);
    assert(t[5].name == "save"@);
    assert(t[6].name == "resume"@);
    assert(t[7].name == "threads"@);
    assert(t[8].name == "stats"@);
    assert(t[9].name == "tools"@);
    assert(t[10].name == "skill"@);
    assert(t[11].name == "debug"@);
    assert(t[12].name == "trace-save"@);
    assert(t[13].name == "help"@);
}

/// Commands are offered in the order of the table, each where what was typed
/// begins its name.
pub proof fn law_offers_keep_the_order(
    a: Seq<InfoView>,
    x: InfoView,
    b: Seq<InfoView>,
    filter: Seq<char>,
)
    ensures
        ({
            let found = |t: Seq<InfoView>| messages::matching_commands(t, filter);
            let fits = x.name.len() >= filter.len() && x.name.take(filter.len() as int) == filter;
            &&& fits ==> found(a + seq![x] + b) == found(a) + seq![x] + found(b)
            &&& !fits ==> found(a + seq![x] + b) == found(a) + found(b)
        }),
{
    let none = Seq::<InfoView>::empty();
    lemma_matching_add(a + seq![x], b, filter);
    lemma_matching_add(a, seq![x], filter);
    assert(seq![x].drop_last() =~= none);
    assert(messages::matching_commands(none, filter) =~= none);
    assert(x.name.take(filter.len() as int) =~= x.name.subrange(0, filter.len() as int));
    assert(none.push(x) =~= seq![x]);
    assert(messages::matching_commands(a, filter) + none =~= messages::matching_commands(a, filter));
}

proof fn lemma_matching_add(a: Seq<InfoView>, b: Seq<InfoView>, filter: Seq<char>)
    ensures
        messages::matching_commands(a + b, filter) == messages::matching_commands(a, filter)
            + messages::matching_commands(b, filter),
    decreases b.len(),
{
    if b.len() == 0 {
        assert(a + b =~= a);
        assert(messages::matching_commands(a, filter) + messages::matching_commands(b, filter)
            =~= messages::matching_commands(a, filter));
    } else {
        let f = b.drop_last();
        assert((a + b).drop_last() =~= a + f);
        assert((a + b).last() == b.last());
        lemma_matching_add(a, f, filter);
        assert(messages::matching_commands(a + b, filter) =~= messages::matching_commands(a, filter)
            + messages::matching_commands(b, filter));
    }
}

/// Of the commands only `/save` and `/skill` need an argument.
pub proof fn law_who_needs_an_argument(i: int)
    requires
        0 <= i < messages::command_table().len(),
    ensures
        ({
            let c = messages::command_table()[i];
            c.usage.contains('<') <==> c.name == "save"@ || c.name == "skill"@
        }),
{
    reveal_strlit("/exit");
    reveal_strlit("/new");
    reveal_strlit("/init [text]");
    reveal_strlit("/plan [text]");
    reveal_strlit("/approve");
    reveal_strlit("/save <name>");
    reveal_strlit("/resume [name]");
    reveal_strlit("/threads");
    reveal_strlit("/stats");
    reveal_strlit("/tools");
    reveal_strlit("/skill <name>");
    reveal_strlit("/debug");
    reveal_strlit("/trace-save");
    reveal_strlit("/help");
    assert(!"/exit"@.contains('<'));
    assert(!"/new"@.contains('<'));
    assert(!"/init [text]"@.contains('<'));
    assert(!"/plan [text]"@.contains('<'));
    assert(!"/approve"@.contains('<'));
    assert("/save <name>"@[6] == '<');
    assert(!"/resume [name]"@.contains('<'));
    assert(!"/threads"@.contains('<'));
    assert(!"/stats"@.contains('<'));
    assert(!"/tools"@.contains('<'));
    assert("/skill <name>"@[7] == '<');
    assert(!"/debug"@.contains('<'));
    assert(!"/trace-save"@.contains('<'));
    assert(!"/help"@.contains('<'));
    reveal_strlit("exit");
    reveal_strlit("new");
    reveal_strlit("init");
    reveal_strlit("plan");
    reveal_strlit("approve");
    reveal_strlit("save");
    reveal_strlit("resume");
    reveal_strlit("threads");
    reveal_strlit("stats");
    reveal_strlit("tools");
    reveal_strlit("skill");
    reveal_strlit("debug");
    reveal_strlit("trace-save");
    reveal_strlit("help");
    assert("exit"@.len() == 4);
    assert("exit"@[0] == 'e');
    assert("exit"@[1] == 'x');
    assert("new"@.len() == 3);
    assert("new"@[0] == 'n');
    assert("new"@[1] == 'e');
    assert("init"@.len() == 4);
    assert("init"@[0] == 'i');
    assert("init"@[1] == 'n');
    assert("plan"@.len() == 4);
    assert("plan"@[0] == 'p');
    assert("plan"@[1] == 'l');
    assert("approve"@.len() == 7);
    assert("approve"@[0] == 'a');
    assert("approve"@[1] == 'p');
    assert("save"@.len() == 4);
    assert("save"@[0] == 's');
    assert("save"@[1] == 'a');
    assert("resume"@.len() == 6);
    assert("resume"@[0] == 'r');
    assert("resume"@[1] == 'e');
    assert("threads"@.len() == 7);
    assert("threads"@[0] == 't');
    assert("threads"@[1] == 'h');
    assert("stats"@.len() == 5);
    assert("stats"@[0] == 's');
    assert("stats"@[1] == 't');
    assert("tools"@.len() == 5);
    assert("tools"@[0] == 't');
    assert("tools"@[1] == 'o');
    assert("skill"@.len() == 5);
    assert("skill"@[0] == 's');
    assert("skill"@[1] == 'k');
    assert("debug"@.len() == 5);
    assert("debug"@[0] == 'd');
    assert("debug"@[1] == 'e');
    assert("trace-save"@.len() == 10);
    assert("trace-save"@[0] == 't');
    assert("trace-save"@[1] == 'r');
    assert("help"@.len() == 4);
    assert("help"@[0] == 'h');
    assert("help"@[1] == 'e');
}

/// The highlight of the popup stays where it was as long as there is a command
/// there; else it is on the last one.
pub proof fn law_highlight_stays(filter: Seq<char>, previous: usize)
    ensures
        slash::completion_for(filter, Some(previous)) matches Some(c) ==> c.matches.len() > 0 && (
        previous < c.matches.len() ==> c.selected == previous) && (previous >= c.matches.len()
            ==> c.selected == c.matches.len() - 1),
        slash::completion_for(filter, None) matches Some(c) ==> c.selected == 0,
{
    lemma_matching_few(messages::command_table(), filter);
}

proof fn lemma_matching_few(t: Seq<InfoView>, filter: Seq<char>)
    ensures
        messages::matching_commands(t, filter).len() <= t.len(),
    decreases t.len(),
{
    if t.len() > 0 {
        lemma_matching_few(t.drop_last(), filter);
    }
}

// ── Pastes ──────────────────────────────────────────────────────────────

/// Every line end becomes a line feed: the pair of carriage return and line
/// feed, and a carriage return by itself. All other text stays.
pub proof fn law_line_ends(a: Seq<char>, b: Seq<char>)
    requires
        !a.contains('\r'),
    ensures
        paste::normalized(a) == a,
        paste::normalized(a + seq!['\r', '\n'] + b) == a + seq!['\n'] + paste::normalized(b),
        b.len() == 0 || b[0] != '\n' ==> paste::normalized(a + seq!['\r'] + b) == a + seq!['\n']
            + paste::normalized(b),
{
    reveal_strlit("\r\n");
    reveal_strlit("\n");
    reveal_strlit("\r");
    let pair = "\r\n"@;
    let lf = "\n"@;
    let cr = "\r"@;
    assert(pair =~= seq!['\r', '\n']);
    assert(lf =~= seq!['\n']);
    assert(cr =~= seq!['\r']);
    let none = Seq::<char>::empty();
    text_laws::lemma_none_in_front(a, none, pair);
    text_laws::lemma_none_in_front(a, none, cr);
    assert(a + none =~= a);
    text_laws::lemma_front_stays(a, none, pair, lf);
    text_laws::lemma_front_stays(a, none, cr, lf);
    let half = text::replaced(b, pair, lf);
    text_laws::lemma_none_in_front(a, pair + b, pair);
    assert(a + pair + b =~= a + (pair + b));
    text_laws::law_replacing(a, pair, b, lf);
    let front = a + lf;
    assert(!front.contains('\r')) by {
        assert forall|i: int| 0 <= i < front.len() implies front[i] != '\r' by {
            if i < a.len() {
                assert(a.contains(a[i]));
            }
        }
    }
    text_laws::lemma_none_in_front(front, half, cr);
    text_laws::lemma_front_stays(front, half, cr, lf);
    if b.len() == 0 || b[0] != '\n' {
        let u = a + cr;
        assert forall|i: int| 0 <= i < u.len() implies !text::occurs_at(u + b, pair, i) by {
            if text::occurs_at(u + b, pair, i) {
                let w = (u + b).subrange(i, i + 2);
                assert(w[0] == (u + b)[i]);
                assert(w[1] == (u + b)[i + 1]);
                if i < a.len() {
                    assert(a.contains(a[i]));
                } else {
                    assert((u + b)[i + 1] == b[0]);
                }
            }
        }
        text_laws::lemma_front_stays(u, b, pair, lf);
        text_laws::lemma_none_in_front(a, cr + half, cr);
        assert(u + half =~= a + cr + half);
        assert(a + cr + half =~= a + (cr + half));
        text_laws::law_replacing(a, cr, half, lf);
    }
}

/// A paste that is kept joins the others with the next number, its text and
/// the number of its lines.
pub proof fn law_pastes_are_kept(store: paste::StoreView, t: Seq<char>)
    ensures
        ({
            let next = store.with_text(t);
            &&& next.blocks.len() == store.blocks.len() + 1
            &&& next.blocks.drop_last() == store.blocks
            &&& next.blocks.last().text == t
            &&& next.blocks.last().line_count == text::lines_of(t).len()
            &&& store.next_id >= 1 ==> next.blocks.last().id == store.next_id && next.next_id
                == store.next_id + 1
        }),
{
    assert(store.with_text(t).blocks.drop_last() =~= store.blocks);
}

// ── Times ───────────────────────────────────────────────────────────────

/// A moment is shown as the hours, minutes and seconds of its day in the
/// user's time zone, each in two digits.
pub proof fn law_times(day: int, h: nat, m: nat, s: nat, offset: int)
    requires
        h < 24,
        m < 60,
        s < 60,
    ensures
        messages::time_of_day(day * 86400 + h * 3600 + m * 60 + s - offset, offset)
            == messages::two_digits(h) + seq![':'] + messages::two_digits(m) + seq![':']
            + messages::two_digits(s),
{
    reveal_strlit(":");
    assert(":"@ =~= seq![':']);
    let r = h * 3600 + m * 60 + s;
    assert((day * 86400 + r) % 86400 == r) by (nonlinear_arith)
        requires
            0 <= r < 86400,
    ;
    assert(r / 3600 == h) by (nonlinear_arith)
        requires
            r == h * 3600 + m * 60 + s,
            m < 60,
            s < 60,
    ;
    assert(r % 3600 == m * 60 + s) by (nonlinear_arith)
        requires
            r == h * 3600 + m * 60 + s,
            m < 60,
            s < 60,
    ;
    assert(r % 60 == s) by (nonlinear_arith)
        requires
            r == h * 3600 + m * 60 + s,
            s < 60,
    ;
}

/// A number below a hundred is shown in two digits that read back as it.
pub proof fn law_two_digits(n: nat)
    requires
        n < 100,
    ensures
        messages::two_digits(n).len() == 2,
        text_laws::value_of(messages::two_digits(n)) == n,
{
    text_laws::law_decimals_read_back(n);
    let d = text::decimal(n);
    let t = messages::two_digits(n);
    let none = Seq::<char>::empty();
    if n < 10 {
        assert(d.len() == 1);
        assert(t =~= seq!['0'] + d);
        assert(t.drop_last() =~= seq!['0']);
        assert(seq!['0'].drop_last() =~= none);
        assert(text_laws::value_of(none) == 0);
        assert(text_laws::value_of(seq!['0']) == 0);
        assert(d.drop_last() =~= none);
        assert(t.last() == d.last());
    } else {
        assert(text::decimal(n / 10).len() == 1);
        assert(d.len() == 2);
        assert(t =~= d);
    }
}

// ── Answers ─────────────────────────────────────────────────────────────

/// Whether an option begins with a letter, whatever its case.
pub open spec fn begins_by(option: Seq<char>, c: char) -> bool {
    option.len() > 0 && text::ascii_lower(option[0]) == text::ascii_lower(c)
}

/// A letter points at the first option that begins with it.
pub proof fn law_letters_point_at_options(
    a: Seq<Seq<char>>,
    o: Seq<char>,
    b: Seq<Seq<char>>,
    c: char,
)
    requires
        forall|i: int| 0 <= i < a.len() ==> !begins_by(#[trigger] a[i], c),
        a.len() <= usize::MAX,
    ensures
        intervene::option_by_letter(a, c) is None,
        begins_by(o, c) ==> intervene::option_by_letter(a + seq![o] + b, c) == Some(
            a.len() as usize,
        ),
    decreases a.len() + b.len(),
{
    let all = a + seq![o] + b;
    if a.len() > 0 {
        let f = a.drop_last();
        assert forall|i: int| 0 <= i < f.len() implies !begins_by(#[trigger] f[i], c) by {
            assert(f[i] == a[i]);
        }
        assert(!begins_by(a[a.len() - 1], c));
        law_letters_point_at_options(f, o, Seq::empty(), c);
    }
    if begins_by(o, c) {
        if b.len() == 0 {
            assert(all.drop_last() =~= a);
            assert(all.last() == o);
        } else {
            assert(all.drop_last() =~= a + seq![o] + b.drop_last());
            law_letters_point_at_options(a, o, b.drop_last(), c);
        }
    }
}

/// Among the options of a question a letter moves the highlight to the first
/// option that begins with it, and where there is none, nothing changes; it is
/// never typed.
pub proof fn law_letter_keys(
    a: AppView,
    i: int,
    x: Seq<Seq<char>>,
    o: Seq<char>,
    y: Seq<Seq<char>>,
    id: Seq<char>,
    n: usize,
    c: char,
    f: FactsView,
)
    requires
        is_asked(a, i, x + seq![o] + y, id),
        !a.intervene_text_mode,
        a.intervene_selection == Some(n),
        n < x.len() + 1 + y.len(),
        forall|k: int| 0 <= k < x.len() ==> !begins_by(#[trigger] x[k], c),
        x.len() <= usize::MAX,
        begins_by(o, c),
    ensures
        on_key(a, plain(KeyCode::Char(c)), f) == (
            AppView { intervene_selection: Some(x.len() as usize), ..a },
            None::<CommandView>,
        ),
{
    crate::tui::typing_laws::lemma_asked(a, i, x + seq![o] + y, id);
    law_letters_point_at_options(x, o, y, c);
}

/// While the user writes an answer, the keys edit it as they edit the input.
pub proof fn law_answers_are_edited(
    a: AppView,
    i: int,
    options: Seq<Seq<char>>,
    id: Seq<char>,
    x: Seq<char>,
    c: char,
    y: Seq<char>,
    f: FactsView,
)
    requires
        is_asked(a, i, options, id),
        a.intervene_text_mode,
    ensures
        ({
            let to = |p: Seq<char>, q: Seq<char>| (put_between(a, p, q), None::<CommandView>);
            &&& stands_between(a, x, y) ==> on_key(a, plain(KeyCode::Char(c)), f) == to(
                x + seq![c],
                y,
            )
            &&& stands_between(a, x, seq![c] + y) ==> on_key(a, plain(KeyCode::Delete), f) == to(
                x,
                y,
            )
            &&& stands_between(a, x.push(c), y) ==> on_key(a, plain(KeyCode::Backspace), f) == to(
                x,
                y,
            )
            &&& stands_between(a, x.push(c), y) ==> on_key(a, plain(KeyCode::Left), f) == to(
                x,
                seq![c] + y,
            )
            &&& stands_between(a, x, seq![c] + y) ==> on_key(a, plain(KeyCode::Right), f) == to(
                x.push(c),
                y,
            )
            &&& stands_between(a, x, y) ==> on_key(a, plain(KeyCode::Home), f) == to(
                Seq::empty(),
                x + y,
            )
            &&& stands_between(a, x, y) ==> on_key(a, plain(KeyCode::End), f) == to(
                x + y,
                Seq::empty(),
            )
        }),
{
    crate::tui::typing_laws::lemma_asked(a, i, options, id);
    editor::law_typing_inserts(x, seq![c], y);
    editor::law_delete_removes_one_character(x, c, y);
    editor::law_backspace_removes_one_character(x, c, y);
    editor::law_steps_move_over_one_character(x, c, y);
    editor::law_home_and_end(x, y);
}

// ── The mouse ───────────────────────────────────────────────────────────

/// The line of the chat at the top of its window.
pub open spec fn first_shown(a: AppView) -> int {
    let below = a.visible_chat_height + a.scroll_offset;
    if a.total_rendered_lines > below {
        a.total_rendered_lines - below
    } else {
        0
    }
}

/// Where the button goes down inside the frame of the chat a selection begins
/// at the line and column under the pointer; elsewhere none does.
pub proof fn law_clicks(a: AppView, e: MouseEvent, dx: int, dy: int)
    requires
        e.kind == MouseKind::DownLeft,
        a.chat_area.x + a.chat_area.width <= 65535,
        a.chat_area.y + a.chat_area.height <= 65535,
        a.chat_area.width >= 2,
        a.chat_area.height >= 2,
        e.column == a.chat_area.x + 1 + dx,
        e.row == a.chat_area.y + 1 + dy,
        a.total_rendered_lines + dy <= usize::MAX,
    ensures
        ({
            let b = on_mouse(a, e);
            let inside = 0 <= dx < a.chat_area.width - 2 && 0 <= dy < a.chat_area.height - 2;
            &&& b == (AppView { selection: b.selection, ..a })
            &&& !inside ==> b.selection is None
            &&& inside ==> (b.selection matches Some(s) && s.dragging && s.start_line
                == first_shown(a) + dy && s.start_col == dx && s.end_line == s.start_line
                && s.end_col == s.start_col)
        }),
{
}

/// While the button is down the end of the selection follows the pointer, and
/// its start stays; without a selection nothing happens.
pub proof fn law_drags(a: AppView, e: MouseEvent, s: SelectionState, dx: int, dy: int)
    requires
        e.kind == MouseKind::DragLeft,
        a.chat_area.x + a.chat_area.width <= 65535,
        a.chat_area.y + a.chat_area.height <= 65535,
        a.chat_area.width >= 2,
        a.chat_area.height >= 2,
        e.column == a.chat_area.x + 1 + dx,
        e.row == a.chat_area.y + 1 + dy,
        a.total_rendered_lines + dy <= usize::MAX,
    ensures
        ({
            let b = on_mouse(a, e);
            &&& a.selection is None ==> b == a
            &&& a.selection == Some(s) && !s.dragging ==> b == a
            &&& a.selection == Some(s) && s.dragging ==> (b.selection matches Some(t)
                && t.start_line == s.start_line && t.start_col == s.start_col && t.dragging && (dx
                >= 0 ==> t.end_col == dx) && (dx < 0 ==> t.end_col == 0) && (dy >= 0 ==> t.end_line
                == first_shown(a) + dy) && (dy < 0 ==> t.end_line == first_shown(a)))
            &&& b == (AppView { selection: b.selection, ..a })
        }),
{
}

/// When the button comes up the selection is finished, from its upper to its
/// lower line.
pub proof fn law_releases(a: AppView, e: MouseEvent, s: SelectionState)
    requires
        e.kind == MouseKind::UpLeft,
        a.selection == Some(s),
    ensures
        ({
            let b = on_mouse(a, e);
            &&& (b.selection matches Some(t) && !t.dragging)
            &&& s.start_line <= s.end_line ==> b.selection == Some(
                SelectionState { dragging: false, ..s },
            )
            &&& s.start_line > s.end_line ==> b.selection == Some(
                SelectionState {
                    start_line: s.end_line,
                    start_col: s.end_col,
                    end_line: s.start_line,
                    end_col: s.start_col,
                    dragging: false,
                },
            )
        }),
{
}

/// The wheel scrolls the chat by four rows, up and down.
pub proof fn law_wheel(a: AppView, e: MouseEvent)
    requires
        a.scroll_offset + 4 <= usize::MAX,
    ensures
        e.kind == MouseKind::ScrollUp ==> on_mouse(a, e) == (AppView {
            scroll_offset: (a.scroll_offset + 4) as usize,
            auto_scroll: false,
            ..a
        }),
        e.kind == MouseKind::ScrollDown && a.scroll_offset > 4 ==> on_mouse(a, e) == (AppView {
            scroll_offset: (a.scroll_offset - 4) as usize,
            ..a
        }),
        e.kind == MouseKind::ScrollDown && a.scroll_offset <= 4 ==> on_mouse(a, e) == (AppView {
            scroll_offset: 0,
            auto_scroll: true,
            ..a
        }),
        e.kind == MouseKind::Other ==> on_mouse(a, e) == a,
{
}

proof fn lemma_before(
    ms: Seq<MessageView>,
    counts: Seq<usize>,
    i: int,
    k: int,
    offset: nat,
    start: nat,
    end: nat,
)
    requires
        0 <= i <= k < ms.len(),
        ms.len() == counts.len(),
        offset == selection::sum_rows(counts.take(i)),
        start == selection::sum_rows(counts.take(k)),
        counts[k] > 0,
        end == start + counts[k] - 1,
        selection::copied_text(ms[k]).len() > 0,
    ensures
        selection::selected_texts(ms, counts, i, offset, start, end) == seq![
            selection::copied_text(ms[k]),
        ],
    decreases k - i,
{
    assert(counts.take(i + 1).drop_last() =~= counts.take(i));
    assert(counts.take(i + 1).last() == counts[i]);
    let next = offset + counts[i] as nat;
    assert(next == selection::sum_rows(counts.take(i + 1)));
    if i == k {
        lemma_behind(ms, counts, i + 1, next, start, end);
        assert(seq![selection::copied_text(ms[k])] + Seq::<Seq<char>>::empty() =~= seq![
            selection::copied_text(ms[k]),
        ]);
    } else {
        lemma_rows_grow(counts, i + 1, k);
        lemma_before(ms, counts, i + 1, k, next, start, end);
    }
}

proof fn lemma_behind(
    ms: Seq<MessageView>,
    counts: Seq<usize>,
    i: int,
    offset: nat,
    start: nat,
    end: nat,
)
    requires
        0 <= i <= ms.len(),
        ms.len() == counts.len(),
        offset > end,
    ensures
        selection::selected_texts(ms, counts, i, offset, start, end) == Seq::<Seq<char>>::empty(),
    decreases ms.len() - i,
{
    if i < ms.len() {
        lemma_behind(ms, counts, i + 1, offset + counts[i] as nat, start, end);
    }
}

proof fn lemma_rows_grow(counts: Seq<usize>, i: int, k: int)
    requires
        0 <= i <= k <= counts.len(),
    ensures
        selection::sum_rows(counts.take(i)) <= selection::sum_rows(counts.take(k)),
    decreases k - i,
{
    if i < k {
        assert(counts.take(k).drop_last() =~= counts.take(k - 1));
        lemma_rows_grow(counts, i, k - 1);
    }
}

/// A selection of the rows of one message copies the text of that message.
pub proof fn law_selected_message_is_copied(a: AppView, k: int, c: usize, d: usize)
    requires
        0 <= k < a.messages.len(),
        a.messages.len() == a.line_counts.len(),
        a.line_counts[k] > 0,
        selection::copied_text(a.messages[k]).len() > 0,
        selection::sum_rows(a.line_counts.take(k + 1)) <= usize::MAX,
    ensures
        ({
            let start = selection::sum_rows(a.line_counts.take(k));
            let end = (start + a.line_counts[k] - 1) as usize;
            selection::selection_text(
                AppView {
                    selection: Some(
                        SelectionState {
                            start_line: start as usize,
                            start_col: c,
                            end_line: end,
                            end_col: d,
                            dragging: false,
                        },
                    ),
                    ..a
                },
            ) == selection::copied_text(a.messages[k])
        }),
{
    let counts = a.line_counts;
    let start = selection::sum_rows(counts.take(k));
    assert(counts.take(k + 1).drop_last() =~= counts.take(k));
    assert(counts.take(k + 1).last() == counts[k]);
    assert(counts.take(0) =~= Seq::<usize>::empty());
    lemma_before(
        a.messages,
        counts,
        0,
        k,
        0,
        start,
        (start + counts[k] - 1) as nat,
    );
    let t = selection::copied_text(a.messages[k]);
    text_laws::law_joining(seq![t], seq![t], t, "\n"@);
}

/// What is copied of a message is what it says; of a call what was asked and
/// what came of it.
pub proof fn law_copied_texts(
    s: Seq<char>,
    id: Seq<char>,
    name: Seq<char>,
    args: Seq<char>,
    lines: Seq<Seq<char>>,
    t: Seq<char>,
)
    ensures
        selection::copied_text(MessageView::User { content: s, timestamp: t }) == s,
        selection::copied_text(MessageView::Assistant { content: s, timestamp: t }) == s,
        selection::copied_text(MessageView::Reasoning { content: s, timestamp: t }) == s,
        selection::copied_text(MessageView::System { content: s, timestamp: t }) == s,
        selection::copied_text(MessageView::Error { content: s, timestamp: t }) == s,
        ({
            let call = |state: ToolCallStateView, origin: CallOrigin|
                selection::copied_text(
                    MessageView::ToolCall {
                        id,
                        name,
                        args,
                        state,
                        origin,
                        progress_lines: lines,
                        timestamp: t,
                    },
                );
            &&& call(ToolCallStateView::Running, CallOrigin::User) == seq!['$', ' '] + args
            &&& call(ToolCallStateView::Running, CallOrigin::Llm) == name + seq![' '] + args
            &&& call(ToolCallStateView::Complete(s), CallOrigin::User) == seq!['$', ' '] + args
                + seq!['\n'] + s
            &&& call(ToolCallStateView::Complete(s), CallOrigin::Llm) == name + seq![' '] + args
                + seq!['\n'] + s
            &&& text::finishes_with(call(ToolCallStateView::Rejected(s), CallOrigin::Llm), s)
            &&& text::finishes_with(call(ToolCallStateView::Error(s), CallOrigin::Llm), s)
        }),
{
    reveal_strlit("$ ");
    reveal_strlit(" ");
    reveal_strlit("\n");
    assert("$ "@ =~= seq!['$', ' ']);
    assert(" "@ =~= seq![' ']);
    assert("\n"@ =~= seq!['\n']);
    let r = name + " "@ + args + "\nRejected: "@ + s;
    let e = name + " "@ + args + "\nError: "@ + s;
    assert(r.subrange(r.len() - s.len(), r.len() as int) =~= s);
    assert(e.subrange(e.len() - s.len(), e.len() as int) =~= s);
}

} // verus!
