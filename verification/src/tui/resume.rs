//! What happens when the program has saved, listed or loaded conversations,
//! or has archived a plan.

use vstd::prelude::*;
use crate::memory::{self, Message, RecordView, Role, ToolCallRef};
use crate::text;
use crate::tui::app::{self, App, AppView};
use crate::tui::messages::{
    self, push_message, truncate_for_display, ChatMessage, MessageView, PickerView, ThreadInfo,
    ThreadPicker, ThreadView,
};

verus! {

/// How many bytes of a tool result are shown again.
pub const RESULT_PREVIEW: usize = 500;

/// What became of a plan that was approved.
#[derive(Clone, Debug)]
pub enum Archive {
    /// There was no plan, or an empty one.
    Nothing,
    /// The plan was copied to this path.
    Saved(String),
    /// The plan could not be copied.
    Failed(String),
}

/// What an archive result holds.
pub enum ArchiveView {
    Nothing,
    Saved(Seq<char>),
    Failed(Seq<char>),
}

impl View for Archive {
    type V = ArchiveView;

    open spec fn view(&self) -> ArchiveView {
        match self {
            Archive::Nothing => ArchiveView::Nothing,
            Archive::Saved(path) => ArchiveView::Saved(path@),
            Archive::Failed(e) => ArchiveView::Failed(e@),
        }
    }
}

/// What each saved conversation of a list holds.
pub open spec fn threads_view(v: Seq<ThreadInfo>) -> Seq<ThreadView> {
    v.map_values(|t: ThreadInfo| t@)
}

/// The line for a tool call in a message that is shown again.
pub open spec fn call_line(c: memory::CallView) -> Seq<char> {
    "[Tool: "@ + c.name + " (id: "@ + c.id + ")]"@
}

/// The lines for the tool calls of a message, one below the other.
pub open spec fn call_lines(calls: Seq<memory::CallView>) -> Seq<char> {
    text::joined(Seq::new(calls.len(), |i: int| call_line(calls[i])), "\n"@)
}

/// What an answer of the model is shown as: its text, then its tool calls.
pub open spec fn answer_of(r: RecordView) -> Seq<char> {
    match r.tool_calls {
        Some(calls) => if r.content.len() == 0 {
            call_lines(calls)
        } else {
            r.content + "\n\n"@ + call_lines(calls)
        },
        None => r.content,
    }
}

/// What a message of the conversation is shown as; the context for the
/// model is not shown.
pub open spec fn shown(r: RecordView, now: Seq<char>) -> Option<MessageView> {
    match r.role {
        Role::System => None,
        Role::User => Some(MessageView::User { content: r.content, timestamp: now }),
        Role::Assistant => Some(MessageView::Assistant { content: answer_of(r), timestamp: now }),
        Role::Tool => Some(
            MessageView::System {
                content: "[Tool result: "@ + (match r.tool_call_id {
                    Some(id) => id,
                    None => "?"@,
                }) + "]\n"@ + messages::cut_to_bytes(r.content, RESULT_PREVIEW as nat),
                timestamp: now,
            },
        ),
    }
}

/// What a conversation is shown as.
pub open spec fn rebuilt(rs: Seq<RecordView>, now: Seq<char>) -> Seq<MessageView>
    decreases rs.len(),
{
    if rs.len() == 0 {
        Seq::empty()
    } else {
        let front = rebuilt(rs.drop_last(), now);
        match shown(rs.last(), now) {
            Some(m) => front.push(m),
            None => front,
        }
    }
}

fn call_lines_of(calls: &Vec<ToolCallRef>) -> (r: String)
    ensures
        r@ == call_lines(memory::calls_view(calls@)),
{
    let ghost all = memory::calls_view(calls@);
    let ghost want = Seq::new(all.len(), |i: int| call_line(all[i]));
    let mut lines: Vec<String> = Vec::new();
    let mut i: usize = 0;
    assert(text::texts(lines@) =~= want.take(0));
    while i < calls.len()
        invariant
            i <= calls@.len(),
            all == memory::calls_view(calls@),
            want == Seq::new(all.len(), |i: int| call_line(all[i])),
            text::texts(lines@) == want.take(i as int),
        decreases calls@.len() - i,
    {
        let c = &calls[i];
        assert(all[i as int] == c@);
        let line = text::cat5("[Tool: ", c.name.as_str(), " (id: ", c.id.as_str(), ")]");
        text::push_text(&mut lines, line);
        i = i + 1;
        assert(text::texts(lines@) =~= want.take(i as int));
    }
    assert(want.take(i as int) =~= want);
    text::join(&lines, "\n")
}

fn answer_text(m: &Message) -> (r: String)
    ensures
        r@ == answer_of(m@),
{
    match &m.tool_calls {
        Some(calls) => {
            let lines = call_lines_of(calls);
            if m.content.as_str().is_empty() {
                lines
            } else {
                text::cat3(m.content.as_str(), "\n\n", lines.as_str())
            }
        },
        None => m.content.clone(),
    }
}

fn shown_of(m: &Message, now: &str) -> (r: Option<ChatMessage>)
    ensures
        match r {
            Some(c) => shown(m@, now@) == Some(c@),
            None => shown(m@, now@) is None,
        },
{
    match m.role {
        Role::System => None,
        Role::User => Some(
            ChatMessage::User { content: m.content.clone(), timestamp: now.to_owned() },
        ),
        Role::Assistant => Some(
            ChatMessage::Assistant { content: answer_text(m), timestamp: now.to_owned() },
        ),
        Role::Tool => {
            let preview = truncate_for_display(m.content.as_str(), RESULT_PREVIEW);
            let id = match &m.tool_call_id {
                Some(id) => id.as_str(),
                None => "?",
            };
            Some(
                ChatMessage::System {
                    content: text::cat4("[Tool result: ", id, "]\n", preview.as_str()),
                    timestamp: now.to_owned(),
                },
            )
        },
    }
}

/// What a conversation is shown as.
pub fn rebuild_messages(conversation: &Vec<Message>, now: &str) -> (r: Vec<ChatMessage>)
    ensures
        messages::messages_view(r@) == rebuilt(memory::records(conversation@), now@),
{
    let ghost all = memory::records(conversation@);
    let mut out: Vec<ChatMessage> = Vec::new();
    let mut i: usize = 0;
    assert(messages::messages_view(out@) =~= rebuilt(all.take(0), now@));
    while i < conversation.len()
        invariant
            i <= conversation@.len(),
            all == memory::records(conversation@),
            messages::messages_view(out@) == rebuilt(all.take(i as int), now@),
        decreases conversation@.len() - i,
    {
        assert(all.take(i + 1).drop_last() =~= all.take(i as int));
        assert(all.take(i + 1).last() == conversation@[i as int]@);
        match shown_of(&conversation[i], now) {
            Some(m) => {
                push_message(&mut out, m);
            },
            None => {},
        }
        i = i + 1;
    }
    assert(all.take(i as int) =~= all);
    out
}

/// The state after a conversation was loaded.
pub open spec fn resumed(a: AppView, name: Seq<char>, rs: Seq<RecordView>, now: Seq<char>) -> AppView {
    AppView {
        conversation_title: Some(name),
        messages: seq![
            MessageView::System {
                content: "Resumed conversation \""@ + name + "\"."@,
                timestamp: now,
            },
        ] + rebuilt(rs, now),
        auto_scroll: true,
        scroll_offset: 0,
        ..a
    }
}

/// The text of an approval.
pub open spec fn approval_text(archive: ArchiveView) -> Seq<char> {
    match archive {
        ArchiveView::Nothing =>
            "Plan approved! Plan mode deactivated. You can now execute the plan."@,
        ArchiveView::Saved(path) => "Plan approved! Plan mode deactivated. Plan archived to: "@
            + path + ". You can now execute the plan."@,
        ArchiveView::Failed(e) =>
            "Plan approved! Plan mode deactivated. Warning: failed to archive plan: "@ + e
            + ". You can now execute the plan."@,
    }
}

/// The state after the saved conversations were listed: the picker opens,
/// where there are any.
pub open spec fn listed(
    a: AppView,
    outcome: Result<Seq<ThreadView>, Seq<char>>,
    now: Seq<char>,
) -> AppView {
    match outcome {
        Ok(threads) => if threads.len() > 0 {
            AppView { thread_picker: Some(PickerView { threads, selected: 0 }), ..a }
        } else {
            a.with_system("No saved conversations. Use /save <name> to save one."@, now)
        },
        Err(e) => a.with_error("Error listing threads: "@ + e, now),
    }
}

impl App {
    /// Reports on a save: under what name, or why it failed.
    pub fn conversation_saved(&mut self, name: &str, outcome: Result<(), String>, now: &str)
        ensures
            final(self)@ == match outcome {
                Ok(_) => old(self)@.with_system(
                    "Saved conversation as \""@ + name@ + "\"."@,
                    now@,
                ),
                Err(e) => old(self)@.with_error("Failed to save: "@ + e@, now@),
            },
    {
        match outcome {
            Ok(_) => {
                self.push_system(text::cat3("Saved conversation as \"", name, "\"."), now);
            },
            Err(e) => {
                self.push_error(text::cat2("Failed to save: ", e.as_str()), now);
            },
        }
    }

    /// Reports on an export of the trace: to which file, or why it failed.
    pub fn trace_saved(&mut self, outcome: Result<String, String>, now: &str)
        ensures
            final(self)@ == match outcome {
                Ok(path) => old(self)@.with_system("Trace saved to "@ + path@ + "."@, now@),
                Err(e) => old(self)@.with_error("Failed to save the trace: "@ + e@, now@),
            },
    {
        match outcome {
            Ok(path) => {
                self.push_system(text::cat3("Trace saved to ", path.as_str(), "."), now);
            },
            Err(e) => {
                self.push_error(text::cat2("Failed to save the trace: ", e.as_str()), now);
            },
        }
    }

    /// Opens the thread picker with all saved conversations.
    pub fn open_thread_picker(&mut self, outcome: Result<Vec<ThreadInfo>, String>, now: &str)
        ensures
            final(self)@ == listed(
                old(self)@,
                match outcome {
                    Ok(v) => Ok(threads_view(v@)),
                    Err(e) => Err(e@),
                },
                now@,
            ),
    {
        match outcome {
            Ok(threads) => {
                assert(threads_view(threads@).len() == threads@.len());
                if threads.len() > 0 {
                    reveal(app::app_view);
                    self.thread_picker = Some(ThreadPicker { threads, selected: 0 });
                    assert(self@.thread_picker->0.threads =~= threads_view(threads@));
                } else {
                    self.push_system(
                        "No saved conversations. Use /save <name> to save one.".to_owned(),
                        now,
                    );
                }
            },
            Err(e) => {
                self.push_error(text::cat2("Error listing threads: ", e.as_str()), now);
            },
        }
    }

    /// Rebuilds what is shown from a conversation, and shows its end.
    pub fn rebuild_messages_from_memory(&mut self, conversation: &Vec<Message>, now: &str)
        ensures
            final(self)@ == (AppView {
                messages: rebuilt(memory::records(conversation@), now@),
                auto_scroll: true,
                scroll_offset: 0,
                ..old(self)@
            }),
    {
        reveal(app::app_view);
        self.messages = rebuild_messages(conversation, now);
        self.auto_scroll = true;
        self.scroll_offset = 0;
    }

    fn show_resumed(&mut self, name: &str, now: &str)
        ensures
            final(self)@ == (AppView {
                conversation_title: Some(name@),
                messages: seq![
                    MessageView::System {
                        content: "Resumed conversation \""@ + name@ + "\"."@,
                        timestamp: now@,
                    },
                ] + old(self)@.messages,
                ..old(self)@
            }),
    {
        reveal(app::app_view);
        let ghost before = self@.messages;
        self.conversation_title = Some(name.to_owned());
        let m = ChatMessage::System {
            content: text::cat3("Resumed conversation \"", name, "\"."),
            timestamp: now.to_owned(),
        };
        self.messages.insert(0, m);
        assert(messages::messages_view(self.messages@) =~= seq![m@] + before);
    }

    /// Shows a conversation that was loaded, or why it was not.
    pub fn conversation_loaded(
        &mut self,
        name: &str,
        outcome: Result<Vec<Message>, String>,
        now: &str,
    )
        ensures
            final(self)@ == match outcome {
                Ok(v) => resumed(old(self)@, name@, memory::records(v@), now@),
                Err(e) => old(self)@.with_error(
                    "Failed to resume \""@ + name@ + "\": "@ + e@,
                    now@,
                ),
            },
    {
        match outcome {
            Ok(conversation) => {
                self.rebuild_messages_from_memory(&conversation, now);
                self.show_resumed(name, now);
            },
            Err(e) => {
                self.push_error(
                    text::cat4("Failed to resume \"", name, "\": ", e.as_str()),
                    now,
                );
            },
        }
    }

    /// Leaves plan mode once the plan was archived.
    pub fn plan_archived(&mut self, archive: &Archive, now: &str)
        ensures
            final(self)@ == (AppView { plan_active: false, ..old(self)@ }).with_system(
                approval_text(archive@),
                now@,
            ),
    {
        let content = match archive {
            Archive::Nothing =>
                "Plan approved! Plan mode deactivated. You can now execute the plan.".to_owned(),
            Archive::Saved(path) => text::cat3(
                "Plan approved! Plan mode deactivated. Plan archived to: ",
                path.as_str(),
                ". You can now execute the plan.",
            ),
            Archive::Failed(e) => text::cat3(
                "Plan approved! Plan mode deactivated. Warning: failed to archive plan: ",
                e.as_str(),
                ". You can now execute the plan.",
            ),
        };
        self.set_plan_active(false);
        self.push_system(content, now);
    }

    fn set_plan_active(&mut self, on: bool)
        ensures
            final(self)@ == (AppView { plan_active: on, ..old(self)@ }),
    {
        reveal(app::app_view);
        self.plan_active = on;
    }
}

// ── Laws ────────────────────────────────────────────────────────────────

/// A conversation is shown in its order: what is shown of two parts is what
/// is shown of the one, and then what is shown of the other.
pub proof fn law_rebuilding_keeps_the_order(a: Seq<RecordView>, b: Seq<RecordView>, now: Seq<char>)
    ensures
        rebuilt(a + b, now) == rebuilt(a, now) + rebuilt(b, now),
    decreases b.len(),
{
    if b.len() == 0 {
        assert(a + b =~= a);
        assert(rebuilt(a, now) + rebuilt(b, now) =~= rebuilt(a, now));
    } else {
        assert((a + b).drop_last() =~= a + b.drop_last());
        law_rebuilding_keeps_the_order(a, b.drop_last(), now);
        assert(rebuilt(a + b, now) =~= rebuilt(a, now) + rebuilt(b, now));
    }
}

/// The context for the model is never shown again: a conversation of system
/// messages alone shows nothing.
pub proof fn law_context_is_not_shown(rs: Seq<RecordView>, now: Seq<char>)
    requires
        forall|i: int| 0 <= i < rs.len() ==> (#[trigger] rs[i]).role == Role::System,
    ensures
        rebuilt(rs, now).len() == 0,
    decreases rs.len(),
{
    if rs.len() > 0 {
        assert(rs.last().role == Role::System);
        law_context_is_not_shown(rs.drop_last(), now);
    }
}

} // verus!
