//! Chat messages, commands to the agent, and the small types of the
//! interface's state.

use vstd::prelude::*;
use crate::text;

verus! {

// ── ChatMessage ─────────────────────────────────────────────────────────

/// Who asked for a tool call.
#[derive(Clone, Copy, Debug, PartialEq, Eq, Structural)]
pub enum CallOrigin {
    /// The model.
    Llm,
    /// The user, by a `!command`.
    User,
}

/// How far a tool call has come.
#[derive(Clone, Debug)]
pub enum ToolCallState {
    /// Arguments are still streaming in, or the tool is executing.
    Running,
    /// The tool completed with this output.
    Complete(String),
    /// The tool was rejected before it ran, for this reason.
    Rejected(String),
    /// The tool failed with this error.
    Error(String),
}

/// What a tool call's state holds.
pub enum ToolCallStateView {
    Running,
    Complete(Seq<char>),
    Rejected(Seq<char>),
    Error(Seq<char>),
}

impl View for ToolCallState {
    type V = ToolCallStateView;

    open spec fn view(&self) -> ToolCallStateView {
        match self {
            ToolCallState::Running => ToolCallStateView::Running,
            ToolCallState::Complete(s) => ToolCallStateView::Complete(s@),
            ToolCallState::Rejected(s) => ToolCallStateView::Rejected(s@),
            ToolCallState::Error(s) => ToolCallStateView::Error(s@),
        }
    }
}

/// One entry of the chat area.
#[derive(Clone, Debug)]
pub enum ChatMessage {
    /// User input.
    User { content: String, timestamp: String },
    /// Model output, streamed token by token.
    Assistant { content: String, timestamp: String },
    /// Reasoning of the model.
    Reasoning { content: String, timestamp: String },
    /// A tool call, or a command of the user, in progress or completed.
    ToolCall {
        id: String,
        name: String,
        args: String,
        state: ToolCallState,
        origin: CallOrigin,
        /// Progress messages that came while the tool was running.
        progress_lines: Vec<String>,
        timestamp: String,
    },
    /// Information from the interface itself.
    System { content: String, timestamp: String },
    /// The startup banner.
    Welcome { model: String, workspace: String },
    /// A question to the user, with options to choose from.
    Intervene {
        request_id: String,
        title: String,
        description: String,
        options: Vec<String>,
        responded: bool,
        /// The chosen option, once the user has responded.
        chosen: Option<usize>,
        /// Text of the user's own, where the option asks for it.
        custom_text: Option<String>,
        timestamp: String,
    },
    /// An error.
    Error { content: String, timestamp: String },
}

/// What a chat message holds.
pub enum MessageView {
    User { content: Seq<char>, timestamp: Seq<char> },
    Assistant { content: Seq<char>, timestamp: Seq<char> },
    Reasoning { content: Seq<char>, timestamp: Seq<char> },
    ToolCall {
        id: Seq<char>,
        name: Seq<char>,
        args: Seq<char>,
        state: ToolCallStateView,
        origin: CallOrigin,
        progress_lines: Seq<Seq<char>>,
        timestamp: Seq<char>,
    },
    System { content: Seq<char>, timestamp: Seq<char> },
    Welcome { model: Seq<char>, workspace: Seq<char> },
    Intervene {
        request_id: Seq<char>,
        title: Seq<char>,
        description: Seq<char>,
        options: Seq<Seq<char>>,
        responded: bool,
        chosen: Option<usize>,
        custom_text: Option<Seq<char>>,
        timestamp: Seq<char>,
    },
    Error { content: Seq<char>, timestamp: Seq<char> },
}

impl View for ChatMessage {
    type V = MessageView;

    open spec fn view(&self) -> MessageView {
        match self {
            ChatMessage::User { content, timestamp } => MessageView::User {
                content: content@,
                timestamp: timestamp@,
            },
            ChatMessage::Assistant { content, timestamp } => MessageView::Assistant {
                content: content@,
                timestamp: timestamp@,
            },
            ChatMessage::Reasoning { content, timestamp } => MessageView::Reasoning {
                content: content@,
                timestamp: timestamp@,
            },
            ChatMessage::ToolCall {
                id,
                name,
                args,
                state,
                origin,
                progress_lines,
                timestamp,
            } => MessageView::ToolCall {
                id: id@,
                name: name@,
                args: args@,
                state: state@,
                origin: *origin,
                progress_lines: text::texts(progress_lines@),
                timestamp: timestamp@,
            },
            ChatMessage::System { content, timestamp } => MessageView::System {
                content: content@,
                timestamp: timestamp@,
            },
            ChatMessage::Welcome { model, workspace } => MessageView::Welcome {
                model: model@,
                workspace: workspace@,
            },
            ChatMessage::Intervene {
                request_id,
                title,
                description,
                options,
                responded,
                chosen,
                custom_text,
                timestamp,
            } => MessageView::Intervene {
                request_id: request_id@,
                title: title@,
                description: description@,
                options: text::texts(options@),
                responded: *responded,
                chosen: *chosen,
                custom_text: text::opt_text(*custom_text),
                timestamp: timestamp@,
            },
            ChatMessage::Error { content, timestamp } => MessageView::Error {
                content: content@,
                timestamp: timestamp@,
            },
        }
    }
}

/// What each message of a conversation holds.
pub open spec fn messages_view(v: Seq<ChatMessage>) -> Seq<MessageView> {
    v.map_values(|m: ChatMessage| m@)
}

/// Appends a message.
pub fn push_message(v: &mut Vec<ChatMessage>, m: ChatMessage)
    ensures
        messages_view(final(v)@) == messages_view(old(v)@).push(m@),
        final(v)@ == old(v)@.push(m),
{
    let ghost before = messages_view(v@);
    v.push(m);
    assert(messages_view(v@) =~= before.push(m@));
}

/// `n` in decimal with at least two digits.
pub open spec fn two_digits(n: nat) -> Seq<char> {
    text::padded_left(text::decimal(n), 2, '0')
}

/// The time of day, `HH:MM:SS`, at `secs` seconds since the epoch in a zone
/// `offset` seconds east of UTC.
pub open spec fn time_of_day(secs: int, offset: int) -> Seq<char> {
    let t = (secs + offset) % 86400;
    two_digits((t / 3600) as nat) + ":"@ + two_digits((t % 3600 / 60) as nat) + ":"@ + two_digits(
        (t % 60) as nat,
    )
}

impl ChatMessage {
    /// The time of day, `HH:MM:SS`, at `secs` seconds since the epoch in a
    /// zone `offset` seconds east of UTC.
    pub fn timestamp_at(secs: i64, offset: i64) -> (r: String)
        requires
            i64::MIN <= secs + offset <= i64::MAX,
        ensures
            r@ == time_of_day(secs as int, offset as int),
    {
        let local: i64 = secs + offset;
        let total: u64 = if local >= 0 {
            (local % 86400) as u64
        } else {
            let back: u64 = (-((local + 1) / 86400) + 1) as u64;
            (local as i128 + back as i128 * 86400) as u64
        };
        assert(total == (secs + offset) % 86400);
        let hours = text::pad_left(text::decimal_of(total / 3600).as_str(), 2, '0');
        let minutes = text::pad_left(text::decimal_of(total % 3600 / 60).as_str(), 2, '0');
        let seconds = text::pad_left(text::decimal_of(total % 60).as_str(), 2, '0');
        text::cat5(hours.as_str(), ":", minutes.as_str(), ":", seconds.as_str())
    }
}

// ── SelectionState ──────────────────────────────────────────────────────

/// A text selection made with the mouse: two positions, each a line of the
/// wrapped chat and a display column in it.
#[derive(Clone, Copy, Debug, PartialEq, Eq, Structural)]
pub struct SelectionState {
    /// The line at which the selection started.
    pub start_line: usize,
    /// The column at which it started.
    pub start_col: usize,
    /// The line at which it ends; above the first while dragging upward.
    pub end_line: usize,
    /// The column at which it ends.
    pub end_col: usize,
    /// Whether the mouse button is still held.
    pub dragging: bool,
}

impl SelectionState {
    /// Whether the first position is not behind the second.
    pub open spec fn is_forward(self) -> bool {
        self.start_line < self.end_line || (self.start_line == self.end_line && self.start_col
            <= self.end_col)
    }

    /// `(start_line, start_col, end_line, end_col)` in document order.
    pub fn ordered_bounds(&self) -> (r: (usize, usize, usize, usize))
        ensures
            self.is_forward() ==> r == (
                self.start_line,
                self.start_col,
                self.end_line,
                self.end_col,
            ),
            !self.is_forward() ==> r == (
                self.end_line,
                self.end_col,
                self.start_line,
                self.start_col,
            ),
            r.0 < r.2 || (r.0 == r.2 && r.1 <= r.3),
    {
        if self.start_line < self.end_line || (self.start_line == self.end_line && self.start_col
            <= self.end_col) {
            (self.start_line, self.start_col, self.end_line, self.end_col)
        } else {
            (self.end_line, self.end_col, self.start_line, self.start_col)
        }
    }
}

// ── TuiCommand ──────────────────────────────────────────────────────────

/// The user's answer to an intervention.
#[derive(Clone, Debug)]
pub struct InterventionResponse {
    /// The chosen option; `None` where the user cancelled.
    pub chosen: Option<usize>,
    /// Text of the user's own.
    pub custom_text: Option<String>,
}

/// What an intervention's answer holds.
pub struct ResponseView {
    pub chosen: Option<usize>,
    pub custom_text: Option<Seq<char>>,
}

impl View for InterventionResponse {
    type V = ResponseView;

    open spec fn view(&self) -> ResponseView {
        ResponseView { chosen: self.chosen, custom_text: text::opt_text(self.custom_text) }
    }
}

/// What the interface asks of the program around it.
#[derive(Clone, Debug)]
pub enum TuiCommand {
    /// Run the agent on this message.
    RunAgent(String),
    /// Execute this shell command.
    RunShell(String),
    /// Cancel the running generation.
    CancelGeneration,
    /// Reset the conversation, keeping the system prompt; where a title is
    /// given, save the conversation under it first.
    ClearConversation { save_as: Option<String> },
    /// The user answered an intervention.
    InterventionResponse { request_id: String, response: InterventionResponse },
    /// Exit.
    Exit,
    /// Put this text on the clipboard.
    CopyText(String),
    /// Read the clipboard, and hand its text to the paste handler.
    ReadClipboard,
    /// Save the conversation under this name.
    SaveConversation(String),
    /// Load the conversation of this name.
    LoadConversation(String),
    /// List the saved conversations.
    ListThreads,
    /// Archive the plan file.
    ArchivePlan,
    /// Insert this system message into the memory, in front of the history.
    InjectSystem(String),
    /// Write the trace events of the session to a file.
    SaveTrace,
}

/// What a command holds.
pub enum CommandView {
    RunAgent(Seq<char>),
    RunShell(Seq<char>),
    CancelGeneration,
    ClearConversation { save_as: Option<Seq<char>> },
    InterventionResponse { request_id: Seq<char>, response: ResponseView },
    Exit,
    CopyText(Seq<char>),
    ReadClipboard,
    SaveConversation(Seq<char>),
    LoadConversation(Seq<char>),
    ListThreads,
    ArchivePlan,
    InjectSystem(Seq<char>),
    SaveTrace,
}

impl View for TuiCommand {
    type V = CommandView;

    open spec fn view(&self) -> CommandView {
        match self {
            TuiCommand::RunAgent(s) => CommandView::RunAgent(s@),
            TuiCommand::RunShell(s) => CommandView::RunShell(s@),
            TuiCommand::CancelGeneration => CommandView::CancelGeneration,
            TuiCommand::ClearConversation { save_as } => CommandView::ClearConversation {
                save_as: text::opt_text(*save_as),
            },
            TuiCommand::InterventionResponse { request_id, response } =>
                CommandView::InterventionResponse { request_id: request_id@, response: response@ },
            TuiCommand::Exit => CommandView::Exit,
            TuiCommand::CopyText(s) => CommandView::CopyText(s@),
            TuiCommand::ReadClipboard => CommandView::ReadClipboard,
            TuiCommand::SaveConversation(s) => CommandView::SaveConversation(s@),
            TuiCommand::LoadConversation(s) => CommandView::LoadConversation(s@),
            TuiCommand::ListThreads => CommandView::ListThreads,
            TuiCommand::ArchivePlan => CommandView::ArchivePlan,
            TuiCommand::InjectSystem(s) => CommandView::InjectSystem(s@),
            TuiCommand::SaveTrace => CommandView::SaveTrace,
        }
    }
}

/// What an optional command holds.
pub open spec fn command_view(c: Option<TuiCommand>) -> Option<CommandView> {
    match c {
        Some(c) => Some(c@),
        None => None,
    }
}

// ── Slash completion ────────────────────────────────────────────────────

/// What the completion popup knows of one slash command.
#[derive(Clone, Copy, Debug)]
pub struct CommandInfo {
    /// The name, without the slash.
    pub name: &'static str,
    /// The usage line, such as `/save <name>`.
    pub usage: &'static str,
    /// A description of one line.
    pub desc: &'static str,
}

/// What a command's entry holds.
pub struct InfoView {
    pub name: Seq<char>,
    pub usage: Seq<char>,
    pub desc: Seq<char>,
}

impl View for CommandInfo {
    type V = InfoView;

    open spec fn view(&self) -> InfoView {
        InfoView { name: self.name@, usage: self.usage@, desc: self.desc@ }
    }
}

/// What each entry of a list of commands holds.
pub open spec fn infos_view(v: Seq<CommandInfo>) -> Seq<InfoView> {
    v.map_values(|c: CommandInfo| c@)
}

/// The entry of one command.
pub open spec fn info(name: &str, usage: &str, desc: &str) -> InfoView {
    InfoView { name: name@, usage: usage@, desc: desc@ }
}

/// All slash commands in display order.
pub open spec fn command_table() -> Seq<InfoView> {
    seq![
        info("exit", "/exit", "Quit the application"),
        info("new", "/new", "Start a new conversation"),
        info("init", "/init [text]", "Initialize project rules (LOOMIS.md); text = extra instruction"),
        info("plan", "/plan [text]", "Toggle plan mode; with text, enter plan mode and make the plan"),
        info("approve", "/approve", "Approve plan and exit plan mode"),
        info("save", "/save <name>", "Save conversation as a named thread"),
        info("resume", "/resume [name]", "Restore a saved thread"),
        info("threads", "/threads", "Open the thread picker"),
        info("stats", "/stats", "Show memory statistics"),
        info("tools", "/tools", "List registered tools"),
        info("skill", "/skill <name>", "Load a named skill"),
        info("debug", "/debug", "Toggle the trace panel"),
        info("trace-save", "/trace-save", "Export trace events to a JSONL file"),
        info("help", "/help", "Show the help message"),
    ]
}

fn entry(name: &'static str, usage: &'static str, desc: &'static str) -> (r: CommandInfo)
    ensures
        r@ == info(name, usage, desc),
{
    CommandInfo { name, usage, desc }
}

/// All slash commands in display order.
pub fn slash_commands() -> (r: Vec<CommandInfo>)
    ensures
        infos_view(r@) == command_table(),
{
    let r = vec![
        entry("exit", "/exit", "Quit the application"),
        entry("new", "/new", "Start a new conversation"),
        entry("init", "/init [text]", "Initialize project rules (LOOMIS.md); text = extra instruction"),
        entry("plan", "/plan [text]", "Toggle plan mode; with text, enter plan mode and make the plan"),
        entry("approve", "/approve", "Approve plan and exit plan mode"),
        entry("save", "/save <name>", "Save conversation as a named thread"),
        entry("resume", "/resume [name]", "Restore a saved thread"),
        entry("threads", "/threads", "Open the thread picker"),
        entry("stats", "/stats", "Show memory statistics"),
        entry("tools", "/tools", "List registered tools"),
        entry("skill", "/skill <name>", "Load a named skill"),
        entry("debug", "/debug", "Toggle the trace panel"),
        entry("trace-save", "/trace-save", "Export trace events to a JSONL file"),
        entry("help", "/help", "Show the help message"),
    ];
    assert(infos_view(r@) =~= command_table());
    r
}

/// The commands whose name begins with `filter`, in display order.
pub open spec fn matching_commands(table: Seq<InfoView>, filter: Seq<char>) -> Seq<InfoView>
    decreases table.len(),
{
    if table.len() == 0 {
        Seq::empty()
    } else {
        let rest = matching_commands(table.drop_last(), filter);
        if text::begins_with(table.last().name, filter) {
            rest.push(table.last())
        } else {
            rest
        }
    }
}

/// The slash commands whose name begins with `filter`.
pub fn commands_matching(filter: &str) -> (r: Vec<CommandInfo>)
    ensures
        infos_view(r@) == matching_commands(command_table(), filter@),
{
    let table = slash_commands();
    let mut r: Vec<CommandInfo> = Vec::new();
    let mut i: usize = 0;
    assert(infos_view(r@) =~= Seq::<InfoView>::empty());
    while i < table.len()
        invariant
            i <= table@.len(),
            infos_view(table@) == command_table(),
            infos_view(r@) == matching_commands(command_table().take(i as int), filter@),
        decreases table@.len() - i,
    {
        let c = table[i];
        let ghost t = command_table().take(i + 1);
        let ghost before = infos_view(r@);
        assert(t.drop_last() =~= command_table().take(i as int));
        assert(t.last() == infos_view(table@)[i as int]);
        assert(c@ == t.last());
        if text::starts_with(c.name, filter) {
            r.push(c);
            assert(infos_view(r@) =~= before.push(c@));
        }
        i = i + 1;
    }
    assert(command_table().take(i as int) =~= command_table());
    r
}

/// The completion popup: the commands that match what was typed.
#[derive(Clone, Debug)]
pub struct SlashCompletionState {
    /// Commands that match.
    pub matches: Vec<CommandInfo>,
    /// The highlighted one.
    pub selected: usize,
}

/// What the completion popup holds.
pub struct CompletionView {
    pub matches: Seq<InfoView>,
    pub selected: usize,
}

impl View for SlashCompletionState {
    type V = CompletionView;

    open spec fn view(&self) -> CompletionView {
        CompletionView { matches: infos_view(self.matches@), selected: self.selected }
    }
}

// ── ThreadPicker ────────────────────────────────────────────────────────

/// A saved conversation.
#[derive(Clone, Debug)]
pub struct ThreadInfo {
    pub name: String,
    pub message_count: usize,
    pub total_chars: usize,
    pub saved_at: String,
}

/// What a saved conversation's entry holds.
pub struct ThreadView {
    pub name: Seq<char>,
    pub message_count: usize,
    pub total_chars: usize,
    pub saved_at: Seq<char>,
}

impl View for ThreadInfo {
    type V = ThreadView;

    open spec fn view(&self) -> ThreadView {
        ThreadView {
            name: self.name@,
            message_count: self.message_count,
            total_chars: self.total_chars,
            saved_at: self.saved_at@,
        }
    }
}

/// The overlay in which a saved conversation is chosen.
#[derive(Clone, Debug)]
pub struct ThreadPicker {
    /// The saved conversations, newest first.
    pub threads: Vec<ThreadInfo>,
    /// The highlighted one.
    pub selected: usize,
}

/// What the thread picker holds.
pub struct PickerView {
    pub threads: Seq<ThreadView>,
    pub selected: usize,
}

impl View for ThreadPicker {
    type V = PickerView;

    open spec fn view(&self) -> PickerView {
        PickerView {
            threads: self.threads@.map_values(|t: ThreadInfo| t@),
            selected: self.selected,
        }
    }
}

// ── Helpers ─────────────────────────────────────────────────────────────

/// `s` where it has at most `max` bytes; otherwise the longest prefix of
/// whole characters within `max` bytes, and an ellipsis of three dots.
pub open spec fn cut_to_bytes(s: Seq<char>, max: nat) -> Seq<char> {
    if text::byte_len(s) <= max {
        s
    } else {
        s.take(text::floor_index(s, max)) + "..."@
    }
}

/// Truncates `text` to `max_len` bytes at a character boundary, with `...`
/// where it is cut.
pub fn truncate_for_display(text: &str, max_len: usize) -> (r: String)
    ensures
        r@ == cut_to_bytes(text@, max_len as nat),
{
    if text::byte_len_of(text) <= max_len {
        return text.to_owned();
    }
    let cs = text::chars_of(text);
    let k: usize = text::floor_chars(&cs, max_len);
    assert(cs@.subrange(0, k as int) =~= text@.take(k as int));
    text::cat2(text::string_of_range(&cs, 0, k).as_str(), "...")
}

/// Whether `c` may not stand in the name of a saved conversation: control
/// characters, and those that file systems reserve.
pub open spec fn is_illegal_in_name(c: char) -> bool {
    ||| c <= '\u{1f}'
    ||| '\u{7f}' <= c <= '\u{9f}'
    ||| c == '/'
    ||| c == '\\'
    ||| c == ':'
    ||| c == '*'
    ||| c == '?'
    ||| c == '"'
    ||| c == '<'
    ||| c == '>'
    ||| c == '|'
}

/// Whether `name` can name a saved conversation.
pub fn is_valid_thread_name(name: &str) -> (r: bool)
    ensures
        r == (name@.len() > 0 && forall|i: int|
            0 <= i < name@.len() ==> !is_illegal_in_name(#[trigger] name@[i])),
{
    let cs = text::chars_of(name);
    let mut i: usize = 0;
    while i < cs.len()
        invariant
            i <= cs@.len(),
            cs@ == name@,
            forall|k: int| 0 <= k < i ==> !is_illegal_in_name(#[trigger] name@[k]),
        decreases cs@.len() - i,
    {
        let c = cs[i];
        if c <= '\u{1f}' || ('\u{7f}' <= c && c <= '\u{9f}') || c == '/' || c == '\\' || c == ':' || c
            == '*' || c == '?' || c == '"' || c == '<' || c == '>' || c == '|' {
            assert(is_illegal_in_name(name@[i as int]));
            return false;
        }
        i = i + 1;
    }
    cs.len() > 0
}

} // verus!
