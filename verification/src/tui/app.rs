//! The state of the interface.

use vstd::prelude::*;
use crate::sandbox::shell_filter::{FilterView, ShellFilter};
use crate::text;
use crate::tui::debug::{DebugOverlay, OverlayView};
use crate::tui::editor;
use crate::tui::keyboard::Platform;
use crate::tui::messages::{
    self, push_message, ChatMessage, CompletionView, MessageView, PickerView, SelectionState,
    SlashCompletionState, ThreadPicker,
};
use crate::tui::paste::{PasteStore, StoreView};

verus! {

// ── Parts ───────────────────────────────────────────────────────────────

/// A rectangle of the screen.
#[derive(Clone, Copy, Debug, PartialEq, Eq, Structural)]
pub struct Rect {
    pub x: u16,
    pub y: u16,
    pub width: u16,
    pub height: u16,
}

/// A skill that can be loaded.
#[derive(Clone, Debug)]
pub struct Skill {
    pub name: String,
    pub description: String,
    pub content: String,
}

/// What a skill holds.
pub struct SkillView {
    pub name: Seq<char>,
    pub description: Seq<char>,
    pub content: Seq<char>,
}

impl View for Skill {
    type V = SkillView;

    open spec fn view(&self) -> SkillView {
        SkillView {
            name: self.name@,
            description: self.description@,
            content: self.content@,
        }
    }
}

/// What each skill of a list holds.
pub open spec fn skills_view(v: Seq<Skill>) -> Seq<SkillView> {
    v.map_values(|s: Skill| s@)
}

/// A loaded skill: its name and content.
#[derive(Clone, Debug)]
pub struct ActiveSkill {
    pub name: String,
    pub content: String,
}

/// What each loaded skill of a list holds.
pub open spec fn active_view(v: Seq<ActiveSkill>) -> Seq<(Seq<char>, Seq<char>)> {
    v.map_values(|s: ActiveSkill| (s.name@, s.content@))
}

/// What the interface is started with.
pub struct AppConfig {
    pub model: String,
    pub tool_names: Vec<String>,
    /// The path of the plan file, for display.
    pub plan_file: String,
    /// The prompt of `/init`.
    pub init_prompt: String,
    pub skills: Vec<Skill>,
    pub shell_filter: ShellFilter,
    pub platform: Platform,
}

// ── App ─────────────────────────────────────────────────────────────────

/// The state of the interface.
pub struct App {
    /// The conversation.
    pub messages: Vec<ChatMessage>,
    /// The estimated rows of each message.
    pub line_counts: Vec<usize>,
    /// The text that is being typed.
    pub input: String,
    /// The cursor: a byte offset into `input`.
    pub input_cursor: usize,
    /// The first visible row of the input.
    pub input_scroll_offset: usize,
    /// Pastes that placeholders in the input stand for.
    pub paste_store: PasteStore,
    /// How many rows the user has scrolled up.
    pub scroll_offset: usize,
    /// Whether new content scrolls to the bottom.
    pub auto_scroll: bool,
    /// Whether the agent is running.
    pub streaming: bool,
    /// When the run started, in milliseconds.
    pub run_started_at: Option<u64>,
    /// The frame of the spinner.
    pub spinner_frame: usize,
    /// When the spinner last moved, in milliseconds.
    pub last_spinner_tick: u64,
    pub model: String,
    pub tool_names: Vec<String>,
    pub plan_file: String,
    pub init_prompt: String,
    /// Hints of the user for the running agent, which the program takes.
    pub pending_hints: Vec<String>,
    /// What was submitted.
    pub history: Vec<String>,
    /// The place in the history while the user walks it.
    pub history_index: Option<usize>,
    /// What was being typed before the user walked the history.
    pub draft_input: String,
    pub thread_picker: Option<ThreadPicker>,
    /// The completion popup.
    pub slash_completion: Option<SlashCompletionState>,
    /// Whether the user dismissed the popup.
    pub slash_dismissed: bool,
    pub show_help: bool,
    /// The panel of trace events.
    pub debug: DebugOverlay,
    /// The name of the conversation.
    pub conversation_title: Option<String>,
    /// The highlighted option of a pending intervention.
    pub intervene_selection: Option<usize>,
    /// Whether the user is typing an answer of their own.
    pub intervene_text_mode: bool,
    /// The input from before that.
    pub intervene_saved_input: String,
    /// The cursor from before that.
    pub intervene_saved_cursor: usize,
    pub should_quit: bool,
    /// The text selected with the mouse.
    pub selection: Option<SelectionState>,
    /// Where the chat is on the screen.
    pub chat_area: Rect,
    /// The rows of the chat.
    pub total_rendered_lines: usize,
    /// The visible rows of the chat.
    pub visible_chat_height: usize,
    /// Whether plan mode is on.
    pub plan_active: bool,
    /// Whether the directory of the plan file is wanted.
    pub needs_plan_dir: bool,
    pub skills: Vec<Skill>,
    pub active_skills: Vec<ActiveSkill>,
    /// The policy for `!` commands.
    pub shell_filter: ShellFilter,
    /// A `!` command that awaits confirmation.
    pub pending_shell_confirm: Option<String>,
    /// What was last submitted to the agent.
    pub last_submitted_input: Option<String>,
    pub platform: Platform,
}

/// What the state of the interface holds.
pub struct AppView {
    pub messages: Seq<MessageView>,
    pub line_counts: Seq<usize>,
    pub input: Seq<char>,
    pub input_cursor: int,
    pub input_scroll_offset: usize,
    pub paste_store: StoreView,
    pub scroll_offset: usize,
    pub auto_scroll: bool,
    pub streaming: bool,
    pub run_started_at: Option<u64>,
    pub spinner_frame: usize,
    pub last_spinner_tick: u64,
    pub model: Seq<char>,
    pub tool_names: Seq<Seq<char>>,
    pub plan_file: Seq<char>,
    pub init_prompt: Seq<char>,
    pub pending_hints: Seq<Seq<char>>,
    pub history: Seq<Seq<char>>,
    pub history_index: Option<usize>,
    pub draft_input: Seq<char>,
    pub thread_picker: Option<PickerView>,
    pub slash_completion: Option<CompletionView>,
    pub slash_dismissed: bool,
    pub show_help: bool,
    pub debug: OverlayView,
    pub conversation_title: Option<Seq<char>>,
    pub intervene_selection: Option<usize>,
    pub intervene_text_mode: bool,
    pub intervene_saved_input: Seq<char>,
    pub intervene_saved_cursor: int,
    pub should_quit: bool,
    pub selection: Option<SelectionState>,
    pub chat_area: Rect,
    pub total_rendered_lines: usize,
    pub visible_chat_height: usize,
    pub plan_active: bool,
    pub needs_plan_dir: bool,
    pub skills: Seq<SkillView>,
    pub active_skills: Seq<(Seq<char>, Seq<char>)>,
    pub shell_filter: FilterView,
    pub pending_shell_confirm: Option<Seq<char>>,
    pub last_submitted_input: Option<Seq<char>>,
    pub platform: Platform,
}

/// What an optional thread picker holds.
pub open spec fn picker_view(p: Option<ThreadPicker>) -> Option<PickerView> {
    match p {
        Some(p) => Some(p@),
        None => None,
    }
}

/// What an optional completion popup holds.
pub open spec fn completion_view(c: Option<SlashCompletionState>) -> Option<CompletionView> {
    match c {
        Some(c) => Some(c@),
        None => None,
    }
}

/// What the state of the interface holds, field by field.
#[verifier::opaque]
pub open spec fn app_view(app: App) -> AppView {
    AppView {
        messages: messages::messages_view(app.messages@),
        line_counts: app.line_counts@,
        input: app.input@,
        input_cursor: app.input_cursor as int,
        input_scroll_offset: app.input_scroll_offset,
        paste_store: app.paste_store@,
        scroll_offset: app.scroll_offset,
        auto_scroll: app.auto_scroll,
        streaming: app.streaming,
        run_started_at: app.run_started_at,
        spinner_frame: app.spinner_frame,
        last_spinner_tick: app.last_spinner_tick,
        model: app.model@,
        tool_names: text::texts(app.tool_names@),
        plan_file: app.plan_file@,
        init_prompt: app.init_prompt@,
        pending_hints: text::texts(app.pending_hints@),
        history: text::texts(app.history@),
        history_index: app.history_index,
        draft_input: app.draft_input@,
        thread_picker: picker_view(app.thread_picker),
        slash_completion: completion_view(app.slash_completion),
        slash_dismissed: app.slash_dismissed,
        show_help: app.show_help,
        debug: app.debug@,
        conversation_title: text::opt_text(app.conversation_title),
        intervene_selection: app.intervene_selection,
        intervene_text_mode: app.intervene_text_mode,
        intervene_saved_input: app.intervene_saved_input@,
        intervene_saved_cursor: app.intervene_saved_cursor as int,
        should_quit: app.should_quit,
        selection: app.selection,
        chat_area: app.chat_area,
        total_rendered_lines: app.total_rendered_lines,
        visible_chat_height: app.visible_chat_height,
        plan_active: app.plan_active,
        needs_plan_dir: app.needs_plan_dir,
        skills: skills_view(app.skills@),
        active_skills: active_view(app.active_skills@),
        shell_filter: app.shell_filter@,
        pending_shell_confirm: text::opt_text(app.pending_shell_confirm),
        last_submitted_input: text::opt_text(app.last_submitted_input),
        platform: app.platform,
    }
}

impl View for App {
    type V = AppView;

    open spec fn view(&self) -> AppView {
        app_view(*self)
    }
}

impl AppView {
    /// The text and cursor that are being edited.
    pub open spec fn edit(self) -> editor::EditView {
        editor::EditView { input: self.input, cursor: self.input_cursor }
    }

    /// The cursors stand at characters, and the indices point into what they
    /// are for.
    pub open spec fn wf(self) -> bool {
        &&& self.edit().wf()
        &&& text::is_boundary(self.intervene_saved_input, self.intervene_saved_cursor)
        &&& self.history_index matches Some(i) ==> i < self.history.len()
        &&& self.thread_picker matches Some(p) ==> p.selected < p.threads.len()
        &&& self.slash_completion matches Some(c) ==> c.selected < c.matches.len()
        &&& self.paste_store.wf()
    }

    /// The state with another text and cursor.
    pub open spec fn with_edit(self, e: editor::EditView) -> AppView {
        AppView { input: e.input, input_cursor: e.cursor, ..self }
    }

    /// The state with one message more.
    pub open spec fn with_message(self, m: MessageView) -> AppView {
        AppView { messages: self.messages.push(m), ..self }
    }

    /// The state with one more message of the system.
    pub open spec fn with_system(self, content: Seq<char>, now: Seq<char>) -> AppView {
        self.with_message(MessageView::System { content, timestamp: now })
    }

    /// The state with one more error.
    pub open spec fn with_error(self, content: Seq<char>, now: Seq<char>) -> AppView {
        self.with_message(MessageView::Error { content, timestamp: now })
    }
}

/// The state at the start: a greeting and nothing else.
pub open spec fn initial(config: AppConfig, now: Seq<char>) -> AppView {
    AppView {
        messages: seq![
            MessageView::System {
                content: "Loomis — Model: "@ + config.model@ + " | /help for commands"@,
                timestamp: now,
            },
        ],
        line_counts: seq![1usize],
        input: Seq::empty(),
        input_cursor: 0,
        input_scroll_offset: 0,
        paste_store: StoreView { next_id: 0, blocks: Seq::empty() },
        scroll_offset: 0,
        auto_scroll: true,
        streaming: false,
        run_started_at: None,
        spinner_frame: 0,
        last_spinner_tick: 0,
        model: config.model@,
        tool_names: text::texts(config.tool_names@),
        plan_file: config.plan_file@,
        init_prompt: config.init_prompt@,
        pending_hints: Seq::empty(),
        history: Seq::empty(),
        history_index: None,
        draft_input: Seq::empty(),
        thread_picker: None,
        slash_completion: None,
        slash_dismissed: false,
        show_help: false,
        debug: OverlayView { visible: false, scroll_offset: 0, events: Seq::empty() },
        conversation_title: None,
        intervene_selection: None,
        intervene_text_mode: false,
        intervene_saved_input: Seq::empty(),
        intervene_saved_cursor: 0,
        should_quit: false,
        selection: None,
        chat_area: Rect { x: 0, y: 0, width: 0, height: 0 },
        total_rendered_lines: 0,
        visible_chat_height: 0,
        plan_active: false,
        needs_plan_dir: false,
        skills: skills_view(config.skills@),
        active_skills: Seq::empty(),
        shell_filter: config.shell_filter@,
        pending_shell_confirm: None,
        last_submitted_input: None,
        platform: config.platform,
    }
}

impl App {
    /// A fresh interface with a greeting.
    pub fn new(config: AppConfig, now: &str) -> (r: App)
        ensures
            r@ == initial(config, now@),
            r@.wf(),
    {
        let mut messages: Vec<ChatMessage> = Vec::new();
        let greeting = text::cat3(
            "Loomis — Model: ",
            config.model.as_str(),
            " | /help for commands",
        );
        push_message(
            &mut messages,
            ChatMessage::System { content: greeting, timestamp: now.to_owned() },
        );
        let mut line_counts: Vec<usize> = Vec::new();
        line_counts.push(1);
        let ghost want = initial(config, now@);
        let r = App {
            messages,
            line_counts,
            input: String::new(),
            input_cursor: 0,
            input_scroll_offset: 0,
            paste_store: PasteStore::default(),
            scroll_offset: 0,
            auto_scroll: true,
            streaming: false,
            run_started_at: None,
            spinner_frame: 0,
            last_spinner_tick: 0,
            model: config.model,
            tool_names: config.tool_names,
            plan_file: config.plan_file,
            init_prompt: config.init_prompt,
            pending_hints: Vec::new(),
            history: Vec::new(),
            history_index: None,
            draft_input: String::new(),
            thread_picker: None,
            slash_completion: None,
            slash_dismissed: false,
            show_help: false,
            debug: DebugOverlay::new(),
            conversation_title: None,
            intervene_selection: None,
            intervene_text_mode: false,
            intervene_saved_input: String::new(),
            intervene_saved_cursor: 0,
            should_quit: false,
            selection: None,
            chat_area: Rect { x: 0, y: 0, width: 0, height: 0 },
            total_rendered_lines: 0,
            visible_chat_height: 0,
            plan_active: false,
            needs_plan_dir: false,
            skills: config.skills,
            active_skills: Vec::new(),
            shell_filter: config.shell_filter,
            pending_shell_confirm: None,
            last_submitted_input: None,
            platform: config.platform,
        };
        reveal(app_view);
        assert(r@.messages =~= want.messages);
        assert(r@.line_counts =~= want.line_counts);
        assert(r@.pending_hints =~= want.pending_hints);
        assert(r@.history =~= want.history);
        assert(r@.active_skills =~= want.active_skills);
        proof {
            editor::lemma_ends(r@.input);
            editor::lemma_ends(r@.intervene_saved_input);
        }
        r
    }

    /// Appends a message of the system.
    pub fn push_system(&mut self, content: String, now: &str)
        ensures
            final(self)@ == old(self)@.with_system(content@, now@),
    {
        reveal(app_view);
        push_message(
            &mut self.messages,
            ChatMessage::System { content, timestamp: now.to_owned() },
        );
    }

    /// Appends an error.
    pub fn push_error(&mut self, content: String, now: &str)
        ensures
            final(self)@ == old(self)@.with_error(content@, now@),
    {
        reveal(app_view);
        push_message(
            &mut self.messages,
            ChatMessage::Error { content, timestamp: now.to_owned() },
        );
    }
}

} // verus!
