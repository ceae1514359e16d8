//! Answering an intervention: moving through the options, choosing one, or
//! typing an answer.

use vstd::prelude::*;
use crate::text;
use crate::tui::app::{self, App, AppView};
use crate::tui::editor;
use crate::tui::keyboard::KeyCode;
use crate::tui::messages::{
    self, ChatMessage, CommandView, InterventionResponse, MessageView, ResponseView, TuiCommand,
};

verus! {

/// Whether a message is an intervention that awaits an answer.
pub open spec fn is_pending(m: MessageView) -> bool {
    m matches MessageView::Intervene { responded, .. } && !responded
}

/// The last intervention that awaits an answer, or -1.
pub open spec fn last_pending(ms: Seq<MessageView>) -> int
    decreases ms.len(),
{
    if ms.len() == 0 {
        -1
    } else if is_pending(ms.last()) {
        ms.len() - 1
    } else {
        last_pending(ms.drop_last())
    }
}

pub proof fn lemma_last_pending(ms: Seq<MessageView>)
    ensures
        -1 <= last_pending(ms) < ms.len(),
        last_pending(ms) >= 0 ==> is_pending(ms[last_pending(ms)]),
        forall|i: int| last_pending(ms) < i < ms.len() ==> !is_pending(#[trigger] ms[i]),
    decreases ms.len(),
{
    if ms.len() > 0 && !is_pending(ms.last()) {
        lemma_last_pending(ms.drop_last());
        assert forall|i: int| last_pending(ms) < i < ms.len() implies !is_pending(
            #[trigger] ms[i],
        ) by {
            if i < ms.len() - 1 {
                assert(ms[i] == ms.drop_last()[i]);
            }
        }
    }
}

/// The options of the last intervention that awaits an answer.
pub open spec fn pending_options(ms: Seq<MessageView>) -> Seq<Seq<char>> {
    if last_pending(ms) >= 0 {
        ms[last_pending(ms)]->Intervene_options
    } else {
        Seq::empty()
    }
}

/// How many options the last intervention has, answered or not.
pub open spec fn option_count(ms: Seq<MessageView>) -> nat
    decreases ms.len(),
{
    if ms.len() == 0 {
        0
    } else if ms.last() is Intervene {
        ms.last()->Intervene_options.len()
    } else {
        option_count(ms.drop_last())
    }
}

/// An intervention with its answer.
pub open spec fn answered(m: MessageView, chosen: Option<usize>, custom: Option<Seq<char>>) -> MessageView {
    match m {
        MessageView::Intervene { request_id, title, description, options, timestamp, .. } =>
            MessageView::Intervene {
                request_id,
                title,
                description,
                options,
                responded: true,
                chosen,
                custom_text: custom,
                timestamp,
            },
        _ => m,
    }
}

/// The state and the command once the pending intervention is answered.
pub open spec fn completed(a: AppView, chosen: Option<usize>, custom: Option<Seq<char>>) -> (
    AppView,
    Option<CommandView>,
) {
    let b = AppView { intervene_selection: None, intervene_text_mode: false, ..a };
    let i = last_pending(a.messages);
    if i >= 0 {
        (
            AppView { messages: a.messages.update(i, answered(a.messages[i], chosen, custom)), ..b },
            Some(
                CommandView::InterventionResponse {
                    request_id: a.messages[i]->Intervene_request_id,
                    response: ResponseView { chosen, custom_text: custom },
                },
            ),
        )
    } else {
        (b, None)
    }
}

/// The highlighted option, made to be one of the options.
pub open spec fn ready(a: AppView) -> AppView {
    let valid = a.intervene_selection matches Some(s) && s < option_count(a.messages);
    if valid {
        a
    } else {
        AppView { intervene_selection: Some(0), ..a }
    }
}

/// The first option whose label begins with a letter, in either case.
pub open spec fn option_by_letter(options: Seq<Seq<char>>, c: char) -> Option<usize>
    decreases options.len(),
{
    if options.len() == 0 {
        None
    } else {
        match option_by_letter(options.drop_last(), c) {
            Some(i) => Some(i),
            None => {
                let o = options.last();
                if o.len() > 0 && text::ascii_lower(o[0]) == text::ascii_lower(c) {
                    Some((options.len() - 1) as usize)
                } else {
                    None
                }
            },
        }
    }
}

/// The label of the highlighted option; empty where there is none.
pub open spec fn chosen_label(ms: Seq<MessageView>, sel: usize) -> Seq<char> {
    let options = pending_options(ms);
    if sel < options.len() {
        options[sel as int]
    } else {
        Seq::empty()
    }
}

/// The state while the user types an answer of their own.
pub open spec fn typing_answer(a: AppView) -> AppView {
    AppView {
        intervene_saved_input: a.input,
        intervene_saved_cursor: a.input_cursor,
        input: Seq::empty(),
        input_cursor: 0,
        intervene_text_mode: true,
        ..a
    }
}

/// The state back from typing an answer.
pub open spec fn back_from_answer(a: AppView) -> AppView {
    AppView {
        input: a.intervene_saved_input,
        input_cursor: a.intervene_saved_cursor,
        intervene_saved_input: Seq::empty(),
        intervene_saved_cursor: 0,
        intervene_text_mode: false,
        ..a
    }
}

/// What a key does among the options.
pub open spec fn on_option_key(a0: AppView, code: KeyCode) -> (AppView, Option<CommandView>) {
    let a = ready(a0);
    let sel = a.intervene_selection->0;
    match code {
        KeyCode::Up => (
            AppView {
                intervene_selection: Some(
                    if sel > 0 {
                        (sel - 1) as usize
                    } else {
                        0
                    },
                ),
                ..a
            },
            None,
        ),
        KeyCode::Down => (
            AppView {
                intervene_selection: Some(
                    if sel + 1 < option_count(a.messages) {
                        (sel + 1) as usize
                    } else {
                        sel
                    },
                ),
                ..a
            },
            None,
        ),
        KeyCode::Enter => if text::last_is(chosen_label(a.messages, sel), '…') {
            (typing_answer(a), None)
        } else {
            completed(a, Some(sel), None)
        },
        KeyCode::Esc => completed(a, None, None),
        KeyCode::Char(c) => match option_by_letter(pending_options(a.messages), c) {
            Some(i) => (AppView { intervene_selection: Some(i), ..a }, None),
            None => (a, None),
        },
        _ => (a, None),
    }
}

/// The answer that the user typed; none where it is empty.
pub open spec fn typed_answer(s: Seq<char>) -> Option<Seq<char>> {
    if s.len() == 0 {
        None
    } else {
        Some(s)
    }
}

/// What a key does while the user types an answer.
pub open spec fn on_answer_key(a: AppView, code: KeyCode) -> (AppView, Option<CommandView>) {
    match code {
        KeyCode::Enter => {
            let b = back_from_answer(a);
            let sel = match b.intervene_selection {
                Some(s) => s,
                None => 0,
            };
            completed(b, Some(sel), typed_answer(a.input))
        },
        KeyCode::Esc => (back_from_answer(a), None),
        KeyCode::Backspace => (a.with_edit(a.edit().backspaced()), None),
        KeyCode::Delete => (a.with_edit(a.edit().deleted()), None),
        KeyCode::Left => (a.with_edit(a.edit().moved_left()), None),
        KeyCode::Right => (a.with_edit(a.edit().moved_right()), None),
        KeyCode::Home => (a.with_edit(a.edit().at(0)), None),
        KeyCode::End => (a.with_edit(a.edit().moved_end()), None),
        KeyCode::Char(c) => (a.with_edit(a.edit().typed(seq![c])), None),
        _ => (a, None),
    }
}

/// What a key does while an intervention awaits an answer.
pub open spec fn on_intervene_key(a: AppView, code: KeyCode) -> (AppView, Option<CommandView>) {
    if a.intervene_text_mode {
        on_answer_key(a, code)
    } else {
        on_option_key(a, code)
    }
}

/// The index of the last intervention that awaits an answer.
fn find_pending(ms: &Vec<ChatMessage>) -> (r: Option<usize>)
    ensures
        match r {
            Some(i) => i == last_pending(messages::messages_view(ms@)) && i < ms@.len(),
            None => last_pending(messages::messages_view(ms@)) < 0,
        },
{
    let ghost all = messages::messages_view(ms@);
    let mut n: usize = ms.len();
    assert(all.take(n as int) =~= all);
    while n > 0
        invariant
            n <= ms@.len(),
            all == messages::messages_view(ms@),
            last_pending(all.take(n as int)) == last_pending(all),
        decreases n,
    {
        assert(all.take(n as int).last() == ms@[n - 1]@);
        assert(all.take(n as int).drop_last() =~= all.take(n - 1));
        let hit = match &ms[n - 1] {
            ChatMessage::Intervene { responded, .. } => !*responded,
            _ => false,
        };
        if hit {
            return Some(n - 1);
        }
        n = n - 1;
    }
    None
}

fn count_options(ms: &Vec<ChatMessage>) -> (r: usize)
    ensures
        r == option_count(messages::messages_view(ms@)),
{
    let ghost all = messages::messages_view(ms@);
    let mut n: usize = ms.len();
    assert(all.take(n as int) =~= all);
    while n > 0
        invariant
            n <= ms@.len(),
            all == messages::messages_view(ms@),
            option_count(all.take(n as int)) == option_count(all),
        decreases n,
    {
        assert(all.take(n as int).last() == ms@[n - 1]@);
        assert(all.take(n as int).drop_last() =~= all.take(n - 1));
        match &ms[n - 1] {
            ChatMessage::Intervene { options, .. } => {
                assert(text::texts(options@).len() == options@.len());
                return options.len();
            },
            _ => {},
        }
        n = n - 1;
    }
    0
}

fn find_option(options: &Vec<String>, c: char) -> (r: Option<usize>)
    ensures
        r == option_by_letter(text::texts(options@), c),
{
    let ghost all = text::texts(options@);
    let mut i: usize = 0;
    assert(all.take(0) =~= Seq::<Seq<char>>::empty());
    while i < options.len()
        invariant
            i <= options@.len(),
            all == text::texts(options@),
            option_by_letter(all.take(i as int), c) is None,
        decreases options@.len() - i,
    {
        assert(all.take(i + 1).drop_last() =~= all.take(i as int));
        assert(all.take(i + 1).last() == options@[i as int]@);
        let cs = text::chars_of(options[i].as_str());
        if cs.len() > 0 && text::to_ascii_lower(cs[0]) == text::to_ascii_lower(c) {
            proof {
                lemma_letter_stays(all, c, i + 1, i as usize);
            }
            return Some(i);
        }
        i = i + 1;
    }
    assert(all.take(i as int) =~= all);
    None
}

proof fn lemma_letter_stays(options: Seq<Seq<char>>, c: char, n: int, i: usize)
    requires
        0 <= n <= options.len(),
        option_by_letter(options.take(n), c) == Some(i),
    ensures
        option_by_letter(options, c) == Some(i),
    decreases options.len() - n,
{
    if n == options.len() {
        assert(options.take(n) =~= options);
    } else {
        assert(options.take(n + 1).drop_last() =~= options.take(n));
        lemma_letter_stays(options, c, n + 1, i);
    }
}

/// The intervention `m` with its answer.
fn with_answer(m: &ChatMessage, chosen: Option<usize>, custom: &Option<String>) -> (r: ChatMessage)
    requires
        m is Intervene,
    ensures
        r@ == answered(m@, chosen, text::opt_text(*custom)),
{
    match m {
        ChatMessage::Intervene { request_id, title, description, options, timestamp, .. } =>
            ChatMessage::Intervene {
                request_id: request_id.clone(),
                title: title.clone(),
                description: description.clone(),
                options: text::clone_texts(options),
                responded: true,
                chosen,
                custom_text: text::clone_opt(custom),
                timestamp: timestamp.clone(),
            },
        _ => ChatMessage::System { content: String::new(), timestamp: String::new() },
    }
}

impl App {
    /// Whether an intervention awaits an answer.
    pub fn has_pending_intervene(&self) -> (r: bool)
        ensures
            r == (last_pending(self@.messages) >= 0),
    {
        reveal(app::app_view);
        match find_pending(&self.messages) {
            Some(_) => true,
            None => false,
        }
    }

    fn set_intervene_selection(&mut self, s: Option<usize>)
        ensures
            final(self)@ == (AppView { intervene_selection: s, ..old(self)@ }),
    {
        reveal(app::app_view);
        self.intervene_selection = s;
    }

    fn make_ready(&mut self) -> (sel: usize)
        ensures
            final(self)@ == ready(old(self)@),
            final(self)@.intervene_selection == Some(sel),
            final(self)@.messages == old(self)@.messages,
            sel < option_count(old(self)@.messages) || sel == 0,
    {
        reveal(app::app_view);
        let n: usize = count_options(&self.messages);
        let sel: usize = match self.intervene_selection {
            Some(s) => if s < n {
                s
            } else {
                0
            },
            None => 0,
        };
        self.intervene_selection = Some(sel);
        sel
    }

    fn intervene_option_count(&self) -> (r: usize)
        ensures
            r == option_count(self@.messages),
    {
        reveal(app::app_view);
        count_options(&self.messages)
    }

    fn option_for_letter(&self, c: char) -> (r: Option<usize>)
        ensures
            r == option_by_letter(pending_options(self@.messages), c),
    {
        reveal(app::app_view);
        match find_pending(&self.messages) {
            Some(i) => {
                proof {
                    lemma_last_pending(self@.messages);
                }
                assert(self@.messages[i as int] == self.messages@[i as int]@);
                match &self.messages[i] {
                    ChatMessage::Intervene { options, .. } => find_option(options, c),
                    _ => None,
                }
            },
            None => None,
        }
    }

    fn wants_own_answer(&self, sel: usize) -> (r: bool)
        ensures
            r == text::last_is(chosen_label(self@.messages, sel), '…'),
    {
        reveal(app::app_view);
        match find_pending(&self.messages) {
            Some(i) => {
                proof {
                    lemma_last_pending(self@.messages);
                }
                assert(self@.messages[i as int] == self.messages@[i as int]@);
                match &self.messages[i] {
                    ChatMessage::Intervene { options, .. } => {
                        assert(text::texts(options@) == pending_options(self@.messages));
                        if sel < options.len() {
                            assert(options@[sel as int]@ == text::texts(options@)[sel as int]);
                            text::ends_with_char(options[sel].as_str(), '…')
                        } else {
                            false
                        }
                    },
                    _ => false,
                }
            },
            None => false,
        }
    }

    fn enter_intervene_text_mode(&mut self)
        ensures
            final(self)@ == typing_answer(old(self)@),
    {
        reveal(app::app_view);
        self.intervene_saved_input = self.input.clone();
        self.intervene_saved_cursor = self.input_cursor;
        self.input = String::new();
        self.input_cursor = 0;
        self.intervene_text_mode = true;
    }

    fn exit_intervene_text_mode(&mut self)
        ensures
            final(self)@ == back_from_answer(old(self)@),
    {
        reveal(app::app_view);
        self.input = self.intervene_saved_input.clone();
        self.input_cursor = self.intervene_saved_cursor;
        self.intervene_saved_input = String::new();
        self.intervene_saved_cursor = 0;
        self.intervene_text_mode = false;
    }

    /// Answers the pending intervention.
    fn complete_intervene(&mut self, chosen: Option<usize>, custom_text: Option<String>) -> (r:
        Option<TuiCommand>)
        ensures
            (final(self)@, messages::command_view(r)) == completed(
                old(self)@,
                chosen,
                text::opt_text(custom_text),
            ),
    {
        reveal(app::app_view);
        let ghost before = self@;
        let at = find_pending(&self.messages);
        self.intervene_selection = None;
        self.intervene_text_mode = false;
        match at {
            Some(i) => {
                proof {
                    lemma_last_pending(before.messages);
                }
                assert(before.messages[i as int] == self.messages@[i as int]@);
                let m = with_answer(&self.messages[i], chosen, &custom_text);
                let request_id = match &self.messages[i] {
                    ChatMessage::Intervene { request_id, .. } => request_id.clone(),
                    _ => String::new(),
                };
                self.messages.set(i, m);
                assert(messages::messages_view(self.messages@) =~= before.messages.update(
                    i as int,
                    m@,
                ));
                Some(
                    TuiCommand::InterventionResponse {
                        request_id,
                        response: InterventionResponse { chosen, custom_text },
                    },
                )
            },
            None => None,
        }
    }

    /// Replaces the text and the cursor.
    pub fn set_edit(&mut self, input: String, cursor: usize)
        ensures
            final(self)@ == old(self)@.with_edit(editor::edit(input, cursor)),
    {
        reveal(app::app_view);
        self.input = input;
        self.input_cursor = cursor;
    }

    /// Types a character.
    pub fn edit_type(&mut self, c: char)
        requires
            old(self)@.edit().wf(),
        ensures
            final(self)@ == old(self)@.with_edit(old(self)@.edit().typed(seq![c])),
    {
        reveal(app::app_view);
        let (input, cursor) = editor::type_char(&self.input, self.input_cursor, c);
        self.set_edit(input, cursor);
    }

    /// Deletes the character before the cursor.
    pub fn edit_backspace(&mut self)
        requires
            old(self)@.edit().wf(),
        ensures
            final(self)@ == old(self)@.with_edit(old(self)@.edit().backspaced()),
    {
        reveal(app::app_view);
        let (input, cursor) = editor::backspace(&self.input, self.input_cursor);
        self.set_edit(input, cursor);
    }

    /// Deletes the character at the cursor.
    pub fn edit_delete(&mut self)
        requires
            old(self)@.edit().wf(),
        ensures
            final(self)@ == old(self)@.with_edit(old(self)@.edit().deleted()),
    {
        reveal(app::app_view);
        let input = editor::delete_at_cursor(&self.input, self.input_cursor);
        let cursor: usize = self.input_cursor;
        self.set_edit(input, cursor);
    }

    fn set_cursor(&mut self, cursor: usize)
        ensures
            final(self)@ == (AppView { input_cursor: cursor as int, ..old(self)@ }),
    {
        reveal(app::app_view);
        self.input_cursor = cursor;
    }

    /// Moves the cursor to the left.
    pub fn edit_left(&mut self)
        requires
            old(self)@.edit().wf(),
        ensures
            final(self)@ == old(self)@.with_edit(old(self)@.edit().moved_left()),
    {
        reveal(app::app_view);
        let cursor: usize = editor::prev_char_boundary(&self.input, self.input_cursor);
        self.set_cursor(cursor);
    }

    /// Moves the cursor to the right.
    pub fn edit_right(&mut self)
        requires
            old(self)@.edit().wf(),
        ensures
            final(self)@ == old(self)@.with_edit(old(self)@.edit().moved_right()),
    {
        reveal(app::app_view);
        let cursor: usize = editor::next_char_boundary(&self.input, self.input_cursor);
        self.set_cursor(cursor);
    }

    /// Moves the cursor to the start.
    pub fn edit_home(&mut self)
        ensures
            final(self)@ == old(self)@.with_edit(old(self)@.edit().at(0)),
    {
        proof {
            editor::lemma_ends(self@.input);
            text::lemma_offset_end(self@.input);
        }
        self.set_cursor(0);
    }

    /// Moves the cursor to the end.
    pub fn edit_end(&mut self)
        ensures
            final(self)@ == old(self)@.with_edit(old(self)@.edit().moved_end()),
    {
        reveal(app::app_view);
        let cursor: usize = text::byte_len_of(self.input.as_str());
        self.set_cursor(cursor);
    }

    fn handle_intervene_text_key(&mut self, code: KeyCode) -> (r: Option<TuiCommand>)
        requires
            old(self)@.edit().wf(),
        ensures
            (final(self)@, messages::command_view(r)) == on_answer_key(old(self)@, code),
    {
        match code {
            KeyCode::Enter => {
                let answer = self.current_input();
                self.exit_intervene_text_mode();
                let sel: usize = self.selection_or_first();
                let custom = if answer.as_str().is_empty() {
                    None
                } else {
                    Some(answer)
                };
                self.complete_intervene(Some(sel), custom)
            },
            KeyCode::Esc => {
                self.exit_intervene_text_mode();
                None
            },
            KeyCode::Backspace => {
                self.edit_backspace();
                None
            },
            KeyCode::Delete => {
                self.edit_delete();
                None
            },
            KeyCode::Left => {
                self.edit_left();
                None
            },
            KeyCode::Right => {
                self.edit_right();
                None
            },
            KeyCode::Home => {
                self.edit_home();
                None
            },
            KeyCode::End => {
                self.edit_end();
                None
            },
            KeyCode::Char(c) => {
                self.edit_type(c);
                None
            },
            _ => None,
        }
    }

    fn current_input(&self) -> (r: String)
        ensures
            r@ == self@.input,
    {
        reveal(app::app_view);
        self.input.clone()
    }

    fn selection_or_first(&self) -> (r: usize)
        ensures
            r == (match self@.intervene_selection {
                Some(s) => s,
                None => 0,
            }),
    {
        reveal(app::app_view);
        match self.intervene_selection {
            Some(s) => s,
            None => 0,
        }
    }

    fn in_text_mode(&self) -> (r: bool)
        ensures
            r == self@.intervene_text_mode,
    {
        reveal(app::app_view);
        self.intervene_text_mode
    }

    fn handle_option_key(&mut self, code: KeyCode) -> (r: Option<TuiCommand>)
        ensures
            (final(self)@, messages::command_view(r)) == on_option_key(old(self)@, code),
    {
        let sel: usize = self.make_ready();
        match code {
            KeyCode::Up => {
                if sel > 0 {
                    self.set_intervene_selection(Some(sel - 1));
                }
                None
            },
            KeyCode::Down => {
                let n: usize = self.intervene_option_count();
                if sel < n && sel + 1 < n {
                    self.set_intervene_selection(Some(sel + 1));
                }
                None
            },
            KeyCode::Enter => {
                if self.wants_own_answer(sel) {
                    self.enter_intervene_text_mode();
                    None
                } else {
                    self.complete_intervene(Some(sel), None)
                }
            },
            KeyCode::Esc => self.complete_intervene(None, None),
            KeyCode::Char(c) => {
                match self.option_for_letter(c) {
                    Some(i) => {
                        self.set_intervene_selection(Some(i));
                    },
                    None => {},
                }
                None
            },
            _ => None,
        }
    }

    /// Handles a key while an intervention awaits an answer.
    pub fn handle_intervene_key(&mut self, code: KeyCode) -> (r: Option<TuiCommand>)
        requires
            old(self)@.edit().wf(),
        ensures
            (final(self)@, messages::command_view(r)) == on_intervene_key(old(self)@, code),
    {
        if self.in_text_mode() {
            self.handle_intervene_text_key(code)
        } else {
            self.handle_option_key(code)
        }
    }
}

// ── Laws ────────────────────────────────────────────────────────────────

proof fn lemma_answer_wf(a: AppView, code: KeyCode)
    requires
        a.wf(),
    ensures
        on_answer_key(a, code).0.wf(),
{
    let e = a.edit();
    editor::lemma_pos(e);
    match code {
        KeyCode::Enter => {
            editor::lemma_ends(Seq::<char>::empty());
            assert(back_from_answer(a).wf());
        },
        KeyCode::Esc => editor::lemma_ends(Seq::<char>::empty()),
        KeyCode::Backspace => {
            if e.cursor > 0 {
                editor::lemma_without_before(e, 1);
            }
        },
        KeyCode::Delete => editor::lemma_deleted(e),
        KeyCode::Left => {
            if e.cursor > 0 {
                editor::lemma_at(e, e.pos() - 1);
            }
        },
        KeyCode::Right => {
            if e.pos() < e.input.len() {
                editor::lemma_at(e, e.pos() + 1);
            }
        },
        KeyCode::Home => editor::lemma_at(e, 0),
        KeyCode::End => editor::lemma_ends(e.input),
        KeyCode::Char(c) => editor::lemma_typed(e, seq![c]),
        _ => {},
    }
}

proof fn lemma_option_wf(a: AppView, code: KeyCode)
    requires
        a.wf(),
    ensures
        on_option_key(a, code).0.wf(),
{
    assert(ready(a).wf());
    editor::lemma_ends(Seq::<char>::empty());
}

/// Keys never make a cursor or an index invalid.
pub proof fn lemma_intervene_wf(a: AppView, code: KeyCode)
    requires
        a.wf(),
    ensures
        on_intervene_key(a, code).0.wf(),
{
    if a.intervene_text_mode {
        lemma_answer_wf(a, code);
    } else {
        lemma_option_wf(a, code);
    }
}

/// Typing an answer leaves the input of before untouched: it is back when
/// the user goes back.
pub proof fn law_answer_keeps_the_input(a: AppView)
    ensures
        back_from_answer(typing_answer(a)).input == a.input,
        back_from_answer(typing_answer(a)).input_cursor == a.input_cursor,
{
}

/// An intervention is answered once: what was pending is answered, and the
/// answer goes to the one who asked.
pub proof fn law_answer_reaches_the_asker(
    a: AppView,
    chosen: Option<usize>,
    custom: Option<Seq<char>>,
)
    requires
        last_pending(a.messages) >= 0,
    ensures
        ({
            let (b, cmd) = completed(a, chosen, custom);
            let i = last_pending(a.messages);
            &&& !is_pending(b.messages[i])
            &&& last_pending(b.messages) < i
            &&& cmd == Some(
                CommandView::InterventionResponse {
                    request_id: a.messages[i]->Intervene_request_id,
                    response: ResponseView { chosen, custom_text: custom },
                },
            )
        }),
{
    lemma_last_pending(a.messages);
    let (b, cmd) = completed(a, chosen, custom);
    lemma_last_pending(b.messages);
    let i = last_pending(a.messages);
    assert(!is_pending(b.messages[i]));
    assert forall|j: int| i <= j < b.messages.len() implies !is_pending(#[trigger] b.messages[j]) by {
        if j > i {
            assert(b.messages[j] == a.messages[j]);
        }
    }
}

/// Among the options a key moves the highlight or answers, and types
/// nothing.
pub proof fn law_options_take_no_text(a: AppView, code: KeyCode)
    requires
        !a.intervene_text_mode,
        code !is Enter,
    ensures
        on_intervene_key(a, code).0.input == a.input,
        on_intervene_key(a, code).0.input_cursor == a.input_cursor,
{
}

} // verus!
