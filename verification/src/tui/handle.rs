//! The key handlers of the interface.

use vstd::prelude::*;
use crate::sandbox::shell_filter::CommandVerdict;
use crate::text;
use crate::tui::app::{self, App, AppView};
use crate::tui::editor;
use crate::tui::input;
use crate::tui::key_laws;
use crate::tui::keyboard::{self, KeyCode, KeyEvent, KeyModifiers, Platform};
use crate::tui::messages::{self, push_message, ChatMessage, TuiCommand};
use crate::tui::paste;
use crate::tui::selection;
use crate::tui::slash::{self, Facts};

verus! {

impl App {
    // ── Small steps ─────────────────────────────────────────────────────

    fn is_streaming(&self) -> (r: bool)
        ensures
            r == self@.streaming,
    {
        reveal(app::app_view);
        self.streaming
    }

    fn input_is_empty(&self) -> (r: bool)
        ensures
            r == (self@.input.len() == 0),
    {
        reveal(app::app_view);
        self.input.as_str().is_empty()
    }

    fn clear_input(&mut self)
        ensures
            final(self)@ == input::cleared_input(old(self)@),
    {
        reveal(app::app_view);
        self.input = String::new();
        self.input_cursor = 0;
    }

    fn clear_submission(&mut self)
        ensures
            final(self)@ == input::cleared(old(self)@),
    {
        reveal(app::app_view);
        self.input = String::new();
        self.input_cursor = 0;
        self.paste_store.clear();
    }

    fn follow_bottom(&mut self)
        ensures
            final(self)@ == input::at_bottom(old(self)@),
    {
        reveal(app::app_view);
        self.auto_scroll = true;
        self.scroll_offset = 0;
    }

    fn set_auto_scroll(&mut self)
        ensures
            final(self)@ == (AppView { auto_scroll: true, ..old(self)@ }),
    {
        reveal(app::app_view);
        self.auto_scroll = true;
    }

    fn set_streaming(&mut self, streaming: bool)
        ensures
            final(self)@ == (AppView { streaming, ..old(self)@ }),
    {
        reveal(app::app_view);
        self.streaming = streaming;
    }

    fn remember(&mut self, s: &str)
        ensures
            final(self)@ == input::remembered(old(self)@, s@),
    {
        reveal(app::app_view);
        text::push_text(&mut self.history, s.to_owned());
        self.history_index = None;
        self.draft_input = String::new();
    }

    fn push_user(&mut self, s: &str, now: &str)
        ensures
            final(self)@ == old(self)@.with_message(input::user_message(s@, now@)),
    {
        reveal(app::app_view);
        push_message(
            &mut self.messages,
            ChatMessage::User { content: s.to_owned(), timestamp: now.to_owned() },
        );
    }

    fn queue_hint(&mut self, s: &str)
        ensures
            final(self)@ == (AppView {
                pending_hints: old(self)@.pending_hints.push(s@),
                ..old(self)@
            }),
    {
        reveal(app::app_view);
        text::push_text(&mut self.pending_hints, s.to_owned());
    }

    fn set_last_submitted(&mut self, s: &str)
        ensures
            final(self)@ == (AppView { last_submitted_input: Some(s@), ..old(self)@ }),
    {
        reveal(app::app_view);
        self.last_submitted_input = Some(s.to_owned());
    }

    fn end_completion(&mut self, dismissed: bool)
        ensures
            final(self)@ == (AppView {
                slash_completion: None,
                slash_dismissed: dismissed,
                ..old(self)@
            }),
    {
        reveal(app::app_view);
        self.slash_completion = None;
        self.slash_dismissed = dismissed;
    }

    fn close_completion(&mut self)
        ensures
            final(self)@ == (AppView { slash_completion: None, ..old(self)@ }),
    {
        reveal(app::app_view);
        self.slash_completion = None;
    }

    fn set_help(&mut self, shown: bool)
        ensures
            final(self)@ == (AppView { show_help: shown, ..old(self)@ }),
    {
        reveal(app::app_view);
        self.show_help = shown;
    }

    fn set_confirm(&mut self, command: Option<String>)
        ensures
            final(self)@ == (AppView {
                pending_shell_confirm: text::opt_text(command),
                ..old(self)@
            }),
    {
        reveal(app::app_view);
        self.pending_shell_confirm = command;
    }

    fn ask_to_quit(&mut self)
        ensures
            final(self)@ == (AppView { should_quit: true, ..old(self)@ }),
    {
        reveal(app::app_view);
        self.should_quit = true;
    }

    // ── Submitting ──────────────────────────────────────────────────────

    fn run_verdict(&mut self, command: String, verdict: CommandVerdict, now: &str) -> (r: Option<
        TuiCommand,
    >)
        ensures
            (final(self)@, messages::command_view(r)) == input::on_verdict(
                old(self)@,
                command@,
                verdict@,
                now@,
            ),
    {
        match verdict {
            CommandVerdict::AutoApproved => Some(TuiCommand::RunShell(command)),
            CommandVerdict::Blocked { reason } => {
                self.push_error(text::cat2("Blocked by sandbox policy: ", reason.as_str()), now);
                None
            },
            CommandVerdict::RequiresApproval => {
                let question = text::cat3("Run shell command `!", command.as_str(), "`? (y/n)");
                self.set_confirm(Some(command));
                self.push_system(question, now);
                None
            },
        }
    }

    fn classify_command(&self, command: &str) -> (r: CommandVerdict)
        ensures
            r@ == crate::sandbox::shell_filter::classified(self@.shell_filter, command@),
    {
        reveal(app::app_view);
        self.shell_filter.classify(command)
    }

    fn run_bang(&mut self, command: String, now: &str) -> (r: Option<TuiCommand>)
        ensures
            (final(self)@, messages::command_view(r)) == input::on_bang(
                old(self)@,
                command@,
                now@,
            ),
    {
        self.clear_submission();
        self.set_auto_scroll();
        if command.as_str().is_empty() {
            self.push_system(input::SHELL_USAGE.to_owned(), now);
            return None;
        }
        let verdict = self.classify_command(command.as_str());
        self.run_verdict(command, verdict, now)
    }

    fn inject(&mut self, s: &str, now: &str)
        ensures
            final(self)@ == input::injected(old(self)@, s@, now@),
    {
        self.queue_hint(s);
        self.push_user(s, now);
        self.clear_submission();
        self.follow_bottom();
    }

    fn send(&mut self, s: &str, now: &str)
        ensures
            final(self)@ == input::sent(old(self)@, s@, now@),
    {
        self.push_user(s, now);
        self.clear_submission();
        self.follow_bottom();
        self.set_streaming(true);
        self.set_last_submitted(s);
    }

    fn submit(&mut self, raw: &str, expanded: &str, facts: &Facts) -> (r: Option<TuiCommand>)
        requires
            raw@.len() > 0,
        ensures
            (final(self)@, messages::command_view(r)) == input::on_submission(
                old(self)@,
                raw@,
                expanded@,
                facts@,
            ),
    {
        let now = facts.timestamp.as_str();
        let streaming = self.is_streaming();
        self.remember(expanded);
        if streaming {
            self.inject(expanded, now);
            return None;
        }
        if text::starts_with_char(raw, '!') && !text::starts_with(raw, "!!") {
            let cs = text::chars_of(raw);
            let tail = text::string_of_range(&cs, 1, cs.len());
            assert(tail@ =~= raw@.skip(1));
            return self.run_bang(text::trim(tail.as_str()), now);
        }
        match self.handle_slash_command(raw, facts) {
            Some(cmd) => {
                self.clear_submission();
                self.set_auto_scroll();
                cmd
            },
            None => {
                self.send(expanded, now);
                Some(TuiCommand::RunAgent(expanded.to_owned()))
            },
        }
    }

    fn trimmed_input(&self) -> (r: (String, String))
        ensures
            r.0@ == text::trimmed(self@.input),
            r.1@ == paste::expanded(self@.paste_store.blocks, r.0@),
    {
        reveal(app::app_view);
        let raw = text::trim(self.input.as_str());
        let expanded = self.paste_store.expand_all(raw.as_str());
        (raw, expanded)
    }

    fn press_enter(&mut self, modifiers: KeyModifiers, facts: &Facts) -> (r: Option<TuiCommand>)
        requires
            old(self)@.edit().wf(),
        ensures
            (final(self)@, messages::command_view(r)) == input::on_enter(
                old(self)@,
                modifiers,
                facts@,
            ),
    {
        if modifiers.shift {
            self.edit_type('\n');
            return None;
        }
        let (raw, expanded) = self.trimmed_input();
        self.end_completion(false);
        if raw.as_str().is_empty() {
            self.clear_input();
            return None;
        }
        if text::trim(expanded.as_str()).as_str().is_empty() {
            self.clear_submission();
            return None;
        }
        self.submit(raw.as_str(), expanded.as_str(), facts)
    }

    // ── Other keys ──────────────────────────────────────────────────────

    fn has_stable_selection(&self) -> (r: bool)
        ensures
            r == (self@.selection matches Some(s) && !s.dragging),
    {
        reveal(app::app_view);
        match self.selection {
            Some(s) => !s.dragging,
            None => false,
        }
    }

    fn has_selection(&self) -> (r: bool)
        ensures
            r == (self@.selection is Some),
    {
        reveal(app::app_view);
        self.selection.is_some()
    }

    fn handle_copy_or_cancel(&mut self, key: &KeyEvent, now: &str) -> (r: Option<TuiCommand>)
        ensures
            (final(self)@, messages::command_view(r)) == input::on_copy_or_cancel(
                old(self)@,
                *key,
                now@,
            ),
    {
        let platform = self.get_platform();
        if keyboard::is_copy_shortcut(key, platform) && self.has_stable_selection() {
            let copied = self.get_selection_text();
            self.clear_selection();
            return Some(TuiCommand::CopyText(copied));
        }
        if keyboard::is_cancel_shortcut(key) {
            if self.is_streaming() {
                self.set_streaming(false);
                return Some(TuiCommand::CancelGeneration);
            }
            let hint = if platform == Platform::MacOs {
                text::cat3(
                    "Press Ctrl+D to exit, or type /exit. (",
                    keyboard::copy_shortcut_label(platform),
                    " copies selected text)",
                )
            } else {
                "Press Ctrl+D to exit, or type /exit.".to_owned()
            };
            self.push_system(hint, now);
        }
        None
    }

    fn press_ctrl_d(&mut self) -> (r: Option<TuiCommand>)
        requires
            old(self)@.edit().wf(),
        ensures
            (final(self)@, messages::command_view(r)) == input::on_ctrl_d(old(self)@),
    {
        if self.input_is_empty() && !self.is_streaming() {
            self.ask_to_quit();
            return Some(TuiCommand::Exit);
        }
        self.edit_delete();
        None
    }

    fn last_submitted(&self) -> (r: Option<String>)
        ensures
            text::opt_text(r) == self@.last_submitted_input,
    {
        reveal(app::app_view);
        text::clone_opt(&self.last_submitted_input)
    }

    fn press_ctrl_r(&mut self, now: &str) -> (r: Option<TuiCommand>)
        ensures
            (final(self)@, messages::command_view(r)) == input::on_ctrl_r(old(self)@, now@),
    {
        if self.is_streaming() {
            return None;
        }
        match self.last_submitted() {
            Some(s) => {
                self.push_user(s.as_str(), now);
                self.set_streaming(true);
                self.follow_bottom();
                Some(TuiCommand::RunAgent(s))
            },
            None => None,
        }
    }

    fn press_esc(&mut self) -> (r: Option<TuiCommand>)
        ensures
            (final(self)@, messages::command_view(r)) == input::on_esc(old(self)@),
    {
        if self.has_selection() {
            self.clear_selection();
            return None;
        }
        if self.is_streaming() {
            self.set_streaming(false);
            return Some(TuiCommand::CancelGeneration);
        }
        None
    }

    fn debug_is_visible(&self) -> (r: bool)
        ensures
            r == self@.debug.visible,
    {
        reveal(app::app_view);
        self.debug.visible
    }

    fn scroll_debug_up(&mut self)
        ensures
            final(self)@ == (AppView { debug: old(self)@.debug.scrolled_up(1), ..old(self)@ }),
    {
        reveal(app::app_view);
        self.debug.scroll_up(1);
    }

    fn scroll_debug_down(&mut self)
        ensures
            final(self)@ == (AppView { debug: old(self)@.debug.scrolled_down(1), ..old(self)@ }),
    {
        reveal(app::app_view);
        self.debug.scroll_down(1);
    }

    fn recall(&mut self, i: usize)
        requires
            i < old(self)@.history.len(),
        ensures
            final(self)@ == input::recalled(old(self)@, i as int),
    {
        reveal(app::app_view);
        assert(text::texts(self.history@)[i as int] == self.history@[i as int]@);
        let entry = self.history[i].clone();
        let n: usize = text::byte_len_of(entry.as_str());
        self.history_index = Some(i);
        self.input = entry;
        self.input_cursor = n;
    }

    fn keep_draft(&mut self)
        ensures
            final(self)@ == (AppView { draft_input: old(self)@.input, ..old(self)@ }),
    {
        reveal(app::app_view);
        self.draft_input = self.input.clone();
    }

    fn restore_draft(&mut self)
        ensures
            final(self)@ == (AppView {
                history_index: None,
                input: old(self)@.draft_input,
                input_cursor: text::byte_len(old(self)@.draft_input) as int,
                ..old(self)@
            }),
    {
        reveal(app::app_view);
        let draft = self.draft_input.clone();
        let n: usize = text::byte_len_of(draft.as_str());
        self.history_index = None;
        self.input = draft;
        self.input_cursor = n;
    }

    fn history_place(&self) -> (r: (Option<usize>, usize))
        ensures
            r.0 == self@.history_index,
            r.1 == self@.history.len(),
    {
        reveal(app::app_view);
        assert(text::texts(self.history@).len() == self.history@.len());
        (self.history_index, self.history.len())
    }

    fn line_up(&self) -> (r: Option<usize>)
        requires
            self@.edit().wf(),
        ensures
            match r {
                Some(c) => editor::up_from(self@.input, self@.edit().pos()) matches Some(j) && c
                    == text::offset_of(self@.input, j),
                None => editor::up_from(self@.input, self@.edit().pos()) is None,
            },
    {
        reveal(app::app_view);
        editor::cursor_up(&self.input, self.input_cursor)
    }

    fn line_down(&self) -> (r: Option<usize>)
        requires
            self@.edit().wf(),
        ensures
            match r {
                Some(c) => editor::down_from(self@.input, self@.edit().pos()) matches Some(j) && c
                    == text::offset_of(self@.input, j),
                None => editor::down_from(self@.input, self@.edit().pos()) is None,
            },
    {
        reveal(app::app_view);
        editor::cursor_down(&self.input, self.input_cursor)
    }

    fn move_cursor(&mut self, cursor: usize)
        ensures
            final(self)@ == (AppView { input_cursor: cursor as int, ..old(self)@ }),
    {
        reveal(app::app_view);
        self.input_cursor = cursor;
    }

    fn press_up(&mut self)
        requires
            old(self)@.wf(),
        ensures
            final(self)@ == input::on_up(old(self)@),
    {
        let (place, n) = self.history_place();
        match place {
            None => {
                match self.line_up() {
                    Some(c) => {
                        self.move_cursor(c);
                    },
                    None => {
                        if n > 0 {
                            self.keep_draft();
                            self.recall(n - 1);
                        }
                    },
                }
            },
            Some(i) => {
                if i > 0 {
                    self.recall(i - 1);
                }
            },
        }
    }

    fn press_down(&mut self)
        requires
            old(self)@.wf(),
        ensures
            final(self)@ == input::on_down(old(self)@),
    {
        let (place, n) = self.history_place();
        match place {
            None => {
                match self.line_down() {
                    Some(c) => {
                        self.move_cursor(c);
                    },
                    None => {},
                }
            },
            Some(i) => {
                if i + 1 < n {
                    self.recall(i + 1);
                } else {
                    self.restore_draft();
                }
            },
        }
    }

    fn set_not_dismissed(&mut self)
        ensures
            final(self)@ == (AppView { slash_dismissed: false, ..old(self)@ }),
    {
        reveal(app::app_view);
        self.slash_dismissed = false;
    }

    fn placeholder_at_cursor(&self) -> (r: Option<(String, usize)>)
        requires
            self@.edit().wf(),
        ensures
            match r {
                Some((p, n)) => paste::suffix_of(
                    self@.paste_store.blocks,
                    self@.input.take(self@.edit().pos()),
                ) == Some(p@) && n == p@.len() && n <= self@.edit().pos() && n > 0,
                None => paste::suffix_of(
                    self@.paste_store.blocks,
                    self@.input.take(self@.edit().pos()),
                ) is None,
            },
    {
        reveal(app::app_view);
        let n: usize = text::byte_len_of(self.input.as_str());
        let cs = text::chars_of(self.input.as_str());
        let k: usize = text::index_at(&cs, self.input_cursor);
        let before = text::string_of_range(&cs, 0, k);
        assert(before@ =~= self@.input.take(self@.edit().pos()));
        match self.paste_store.placeholder_suffix(before.as_str()) {
            Some(p) => {
                let len: usize = p.as_str().unicode_len();
                Some((p, len))
            },
            None => None,
        }
    }

    fn drop_placeholder(&mut self, p: &str, n: usize)
        requires
            old(self)@.edit().wf(),
            n <= old(self)@.edit().pos(),
        ensures
            final(self)@ == (AppView {
                paste_store: old(self)@.paste_store.without(p@),
                ..old(self)@.with_edit(old(self)@.edit().without_before(n as int))
            }),
    {
        reveal(app::app_view);
        let (input, cursor) = editor::delete_before(&self.input, self.input_cursor, n);
        self.input = input;
        self.input_cursor = cursor;
        let gone = self.paste_store.remove_by_placeholder(p);
    }

    fn press_backspace(&mut self)
        requires
            old(self)@.edit().wf(),
        ensures
            final(self)@ == input::on_backspace(old(self)@),
    {
        proof {
            editor::lemma_pos(self@.edit());
        }
        match self.placeholder_at_cursor() {
            Some((p, n)) => {
                self.drop_placeholder(p.as_str(), n);
            },
            None => {
                self.edit_backspace();
            },
        }
        self.set_not_dismissed();
    }

    fn wants_popup(&self) -> (r: bool)
        ensures
            r == (!self@.streaming && !self@.slash_dismissed && text::first_is(self@.input, '/')),
    {
        reveal(app::app_view);
        !self.streaming && !self.slash_dismissed && text::starts_with_char(
            self.input.as_str(),
            '/',
        )
    }

    fn offer_completion(&mut self)
        ensures
            final(self)@ == input::offered(old(self)@),
    {
        if self.wants_popup() {
            self.update_slash_completion();
        }
    }

    fn press_char(&mut self, key: &KeyEvent, c: char)
        requires
            old(self)@.edit().wf(),
        ensures
            final(self)@ == input::on_char(old(self)@, *key, c),
    {
        let platform = self.get_platform();
        if keyboard::has_shortcut_modifier(key, platform) {
            return ;
        }
        if c == '?' && self.input_is_empty() && !self.is_streaming() {
            self.set_help(true);
            return ;
        }
        self.edit_type(c);
        self.offer_completion();
    }

    fn handle_main_key(&mut self, key: &KeyEvent, facts: &Facts) -> (r: Option<TuiCommand>)
        requires
            old(self)@.wf(),
        ensures
            (final(self)@, messages::command_view(r)) == input::on_main_key(
                old(self)@,
                *key,
                facts@,
            ),
    {
        let now = facts.timestamp.as_str();
        let platform = self.get_platform();
        if keyboard::is_paste_shortcut(key, platform) {
            return Some(TuiCommand::ReadClipboard);
        }
        if keyboard::is_copy_shortcut(key, platform) || keyboard::is_cancel_shortcut(key) {
            return self.handle_copy_or_cancel(key, now);
        }
        match key.code {
            KeyCode::Enter => self.press_enter(key.modifiers, facts),
            KeyCode::Esc => {
                if self.debug_is_visible() {
                    self.toggle_debug();
                    None
                } else {
                    self.press_esc()
                }
            },
            KeyCode::PageUp => {
                self.scroll_up(input::PAGE_STEP);
                None
            },
            KeyCode::PageDown => {
                self.scroll_down(input::PAGE_STEP);
                None
            },
            KeyCode::Up => {
                if self.debug_is_visible() {
                    self.scroll_debug_up();
                } else {
                    self.press_up();
                }
                None
            },
            KeyCode::Down => {
                if self.debug_is_visible() {
                    self.scroll_debug_down();
                } else {
                    self.press_down();
                }
                None
            },
            KeyCode::Home => {
                self.edit_home();
                None
            },
            KeyCode::End => {
                self.edit_end();
                None
            },
            KeyCode::Left => {
                self.edit_left();
                None
            },
            KeyCode::Right => {
                self.edit_right();
                None
            },
            KeyCode::Backspace => {
                self.press_backspace();
                None
            },
            KeyCode::Delete => {
                self.edit_delete();
                None
            },
            KeyCode::Char(c) => {
                if c == 'd' && key.modifiers.control {
                    self.press_ctrl_d()
                } else if c == 'r' && key.modifiers.control {
                    self.press_ctrl_r(now)
                } else if c == 'o' && key.modifiers.control {
                    self.toggle_debug();
                    None
                } else {
                    self.press_char(key, c);
                    None
                }
            },
            _ => None,
        }
    }

    // ── Modes ───────────────────────────────────────────────────────────

    fn set_picker_selected(&mut self, selected: usize)
        ensures
            final(self)@ == (AppView {
                thread_picker: match old(self)@.thread_picker {
                    Some(p) => Some(messages::PickerView { selected, ..p }),
                    None => None,
                },
                ..old(self)@
            }),
    {
        reveal(app::app_view);
        let picker = self.thread_picker.take();
        self.thread_picker = match picker {
            Some(p) => Some(messages::ThreadPicker { threads: p.threads, selected }),
            None => None,
        };
    }

    fn close_picker(&mut self)
        ensures
            final(self)@ == (AppView { thread_picker: None, ..old(self)@ }),
    {
        reveal(app::app_view);
        self.thread_picker = None;
    }

    fn picked_thread(&self) -> (r: Option<(usize, usize, String)>)
        requires
            self@.wf(),
        ensures
            match r {
                Some((selected, n, name)) => self@.thread_picker matches Some(p) && selected
                    == p.selected && n == p.threads.len() && name@
                    == p.threads[p.selected as int].name,
                None => self@.thread_picker is None,
            },
    {
        reveal(app::app_view);
        match &self.thread_picker {
            Some(p) => {
                assert(p@.threads.len() == p.threads@.len());
                assert(p@.threads[p.selected as int] == p.threads@[p.selected as int]@);
                Some((p.selected, p.threads.len(), p.threads[p.selected].name.clone()))
            },
            None => None,
        }
    }

    fn handle_thread_picker_key(&mut self, code: KeyCode) -> (r: Option<TuiCommand>)
        requires
            old(self)@.wf(),
        ensures
            (final(self)@, messages::command_view(r)) == input::on_picker_key(old(self)@, code),
    {
        match self.picked_thread() {
            Some((selected, n, name)) => {
                match code {
                    KeyCode::Esc => {
                        self.close_picker();
                        None
                    },
                    KeyCode::Enter => {
                        self.close_picker();
                        Some(TuiCommand::LoadConversation(name))
                    },
                    KeyCode::Up => {
                        let s: usize = if selected > 0 {
                            selected - 1
                        } else {
                            0
                        };
                        self.set_picker_selected(s);
                        None
                    },
                    KeyCode::Down => {
                        let s: usize = if selected + 1 < n {
                            selected + 1
                        } else {
                            selected
                        };
                        self.set_picker_selected(s);
                        None
                    },
                    _ => None,
                }
            },
            None => None,
        }
    }

    fn pending_command(&self) -> (r: Option<String>)
        ensures
            text::opt_text(r) == self@.pending_shell_confirm,
    {
        reveal(app::app_view);
        text::clone_opt(&self.pending_shell_confirm)
    }

    fn handle_shell_confirm_key(&mut self, code: KeyCode, now: &str) -> (r: Option<TuiCommand>)
        ensures
            (final(self)@, messages::command_view(r)) == input::on_confirm_key(
                old(self)@,
                code,
                now@,
            ),
    {
        match self.pending_command() {
            Some(command) => {
                if code == KeyCode::Char('y') || code == KeyCode::Char('Y') || code
                    == KeyCode::Enter {
                    self.set_confirm(None);
                    self.set_auto_scroll();
                    Some(TuiCommand::RunShell(command))
                } else if code == KeyCode::Char('n') || code == KeyCode::Char('N') || code
                    == KeyCode::Esc {
                    self.set_confirm(None);
                    self.push_system(
                        text::cat2("Shell command cancelled: !", command.as_str()),
                        now,
                    );
                    None
                } else {
                    None
                }
            },
            None => None,
        }
    }

    fn popup_place(&self) -> (r: Option<(usize, usize)>)
        ensures
            match r {
                Some((selected, n)) => self@.slash_completion matches Some(c) && selected
                    == c.selected && n == c.matches.len(),
                None => self@.slash_completion is None,
            },
    {
        reveal(app::app_view);
        match &self.slash_completion {
            Some(c) => {
                assert(messages::infos_view(c.matches@).len() == c.matches@.len());
                Some((c.selected, c.matches.len()))
            },
            None => None,
        }
    }

    fn highlight(&mut self, selected: usize)
        ensures
            final(self)@ == input::highlighted(old(self)@, selected),
    {
        reveal(app::app_view);
        let popup = self.slash_completion.take();
        self.slash_completion = match popup {
            Some(c) => Some(messages::SlashCompletionState { matches: c.matches, selected }),
            None => None,
        };
    }

    fn input_starts_with_slash(&self) -> (r: bool)
        ensures
            r == text::first_is(self@.input, '/'),
    {
        reveal(app::app_view);
        text::starts_with_char(self.input.as_str(), '/')
    }

    fn handle_slash_completion_key(&mut self, key: &KeyEvent, facts: &Facts) -> (r: Option<
        TuiCommand,
    >)
        requires
            old(self)@.wf(),
            old(self)@.slash_completion is Some,
        ensures
            (final(self)@, messages::command_view(r)) == input::on_completion_key(
                old(self)@,
                *key,
                facts@,
            ),
    {
        let (sel, n) = match self.popup_place() {
            Some(p) => p,
            None => (0, 0),
        };
        match key.code {
            KeyCode::Esc => {
                self.end_completion(true);
                None
            },
            KeyCode::Up => {
                let s: usize = if sel > 0 {
                    sel - 1
                } else {
                    0
                };
                self.highlight(s);
                None
            },
            KeyCode::Down => {
                let s: usize = if sel < n && sel + 1 < n {
                    sel + 1
                } else {
                    sel
                };
                self.highlight(s);
                None
            },
            KeyCode::Tab => {
                self.accept_slash_completion();
                None
            },
            KeyCode::Right => {
                self.accept_slash_completion();
                None
            },
            KeyCode::Enter => {
                let needs_args = self.completion_needs_argument();
                proof {
                    slash::lemma_accepted_wf(self@);
                }
                self.accept_slash_completion();
                if needs_args {
                    None
                } else {
                    self.press_enter(KeyModifiers::none(), facts)
                }
            },
            KeyCode::Backspace => {
                self.edit_backspace();
                if self.input_starts_with_slash() {
                    self.update_slash_completion();
                } else {
                    self.close_completion();
                }
                None
            },
            KeyCode::Char(c) => {
                let platform = self.get_platform();
                if keyboard::has_shortcut_modifier(key, platform) {
                    self.close_completion();
                    self.handle_main_key(key, facts)
                } else {
                    self.edit_type(c);
                    self.update_slash_completion();
                    None
                }
            },
            _ => {
                self.close_completion();
                self.handle_main_key(key, facts)
            },
        }
    }

    fn modes(&self) -> (r: (bool, bool, bool, bool))
        ensures
            r.0 == (self@.thread_picker is Some),
            r.1 == (self@.pending_shell_confirm is Some),
            r.2 == self@.show_help,
            r.3 == (self@.slash_completion is Some),
    {
        reveal(app::app_view);
        (
            self.thread_picker.is_some(),
            self.pending_shell_confirm.is_some(),
            self.show_help,
            self.slash_completion.is_some(),
        )
    }

    fn handle_help_key(&mut self, code: KeyCode)
        ensures
            final(self)@ == input::on_help_key(old(self)@, code),
    {
        if code == KeyCode::Esc || code == KeyCode::Enter || code == KeyCode::Char('?') || code
            == KeyCode::F(1) {
            self.set_help(false);
        }
    }

    /// Handles a key, and returns what it asks of the program.
    pub fn handle_key(&mut self, key: KeyEvent, facts: &Facts) -> (r: Option<TuiCommand>)
        requires
            old(self)@.wf(),
        ensures
            (final(self)@, messages::command_view(r)) == input::on_key(old(self)@, key, facts@),
            final(self)@.wf(),
    {
        proof {
            key_laws::law_keys_keep_the_state(self@, key, facts@);
        }
        let (picking, confirming, helping, completing) = self.modes();
        if picking {
            return self.handle_thread_picker_key(key.code);
        }
        if self.has_pending_intervene() {
            return self.handle_intervene_key(key.code);
        }
        if confirming {
            return self.handle_shell_confirm_key(key.code, facts.timestamp.as_str());
        }
        if helping {
            self.handle_help_key(key.code);
            return None;
        }
        if key.code == KeyCode::F(1) {
            self.set_help(true);
            return None;
        }
        if completing {
            return self.handle_slash_completion_key(&key, facts);
        }
        self.handle_main_key(&key, facts)
    }

    // ── Pasting ─────────────────────────────────────────────────────────

    /// Whether something other than the input takes the keys.
    pub fn is_modal_active(&self) -> (r: bool)
        ensures
            r == input::is_modal(self@),
    {
        let (picking, confirming, helping, completing) = self.modes();
        picking || self.has_pending_intervene() || confirming || helping
    }

    fn keep_paste(&mut self, t: String) -> (r: String)
        requires
            old(self)@.paste_store.next_id < usize::MAX,
        ensures
            final(self)@ == (AppView {
                paste_store: old(self)@.paste_store.with_text(t@),
                ..old(self)@
            }),
            r@ == paste::placeholder_of(old(self)@.paste_store.with_text(t@).blocks.last()),
    {
        reveal(app::app_view);
        self.paste_store.add_text(t)
    }

    fn edit_type_text(&mut self, t: &str)
        requires
            old(self)@.edit().wf(),
        ensures
            final(self)@ == old(self)@.with_edit(old(self)@.edit().typed(t@)),
    {
        reveal(app::app_view);
        let (input, cursor) = editor::type_text(&self.input, self.input_cursor, t);
        self.set_edit(input, cursor);
    }

    /// Handles pasted text, wherever it came from.
    pub fn handle_paste(&mut self, pasted: &str)
        requires
            old(self)@.wf(),
            old(self)@.paste_store.next_id < usize::MAX,
        ensures
            final(self)@ == input::on_paste(old(self)@, pasted@),
            final(self)@.wf(),
    {
        proof {
            key_laws::law_pastes_keep_the_state(self@, pasted@);
        }
        if self.is_modal_active() {
            return ;
        }
        let normalized = paste::normalize_newlines(pasted);
        if normalized.as_str().is_empty() {
            return ;
        }
        if text::has_char(normalized.as_str(), '\n') {
            let placeholder = self.keep_paste(normalized);
            self.edit_type_text(placeholder.as_str());
        } else {
            self.edit_type_text(normalized.as_str());
        }
        self.offer_completion();
    }
}

} // verus!
