//! What the events of the agent do to the conversation on display.

use vstd::prelude::*;
use crate::text;
use crate::tui::app::{self, App, AppView};
use crate::tui::messages::{self, push_message, CallOrigin, ChatMessage, MessageView, ToolCallState,
    ToolCallStateView};

verus! {

/// A question that a hook or a tool puts to the user.
#[derive(Clone, Debug)]
pub struct InterventionRequest {
    pub request_id: String,
    pub title: String,
    pub description: String,
    pub options: Vec<String>,
}

/// What happened in the agent.
#[derive(Clone, Debug)]
pub enum AgentEvent {
    RunStarted { session_id: String, user_input: String },
    RunCompleted { answer: String },
    RunFailed { error: String },
    Cancelled,
    /// A piece of the model's answer.
    Token(String),
    /// A piece of the model's reasoning.
    ReasoningToken(String),
    /// A tool call has begun; its arguments are still to come.
    ToolCallStart { id: String, name: String },
    /// A tool call with its arguments.
    ToolCall { id: String, name: String, arguments: String, origin: CallOrigin },
    ToolSuccessful { id: String, name: String, output: String },
    ToolRejected { id: String, name: String, reason: String },
    ToolFailure { id: String, name: String, error: String },
    ToolProgress { id: String, name: String, message: String },
    InterventionRequired(InterventionRequest),
    /// The end of the events of a run.
    Done,
}

/// What an event holds, as far as it is shown.
pub enum EventView {
    RunStarted,
    RunCompleted,
    RunFailed { error: Seq<char> },
    Cancelled,
    Token(Seq<char>),
    ReasoningToken(Seq<char>),
    ToolCallStart { id: Seq<char>, name: Seq<char> },
    ToolCall { id: Seq<char>, name: Seq<char>, arguments: Seq<char>, origin: CallOrigin },
    ToolSuccessful { id: Seq<char>, output: Seq<char> },
    ToolRejected { id: Seq<char>, reason: Seq<char> },
    ToolFailure { id: Seq<char>, error: Seq<char> },
    ToolProgress { id: Seq<char>, message: Seq<char> },
    InterventionRequired {
        request_id: Seq<char>,
        title: Seq<char>,
        description: Seq<char>,
        options: Seq<Seq<char>>,
    },
    Done,
}

impl View for AgentEvent {
    type V = EventView;

    open spec fn view(&self) -> EventView {
        match self {
            AgentEvent::RunStarted { .. } => EventView::RunStarted,
            AgentEvent::RunCompleted { .. } => EventView::RunCompleted,
            AgentEvent::RunFailed { error } => EventView::RunFailed { error: error@ },
            AgentEvent::Cancelled => EventView::Cancelled,
            AgentEvent::Token(s) => EventView::Token(s@),
            AgentEvent::ReasoningToken(s) => EventView::ReasoningToken(s@),
            AgentEvent::ToolCallStart { id, name } => EventView::ToolCallStart {
                id: id@,
                name: name@,
            },
            AgentEvent::ToolCall { id, name, arguments, origin } => EventView::ToolCall {
                id: id@,
                name: name@,
                arguments: arguments@,
                origin: *origin,
            },
            AgentEvent::ToolSuccessful { id, output, .. } => EventView::ToolSuccessful {
                id: id@,
                output: output@,
            },
            AgentEvent::ToolRejected { id, reason, .. } => EventView::ToolRejected {
                id: id@,
                reason: reason@,
            },
            AgentEvent::ToolFailure { id, error, .. } => EventView::ToolFailure {
                id: id@,
                error: error@,
            },
            AgentEvent::ToolProgress { id, message, .. } => EventView::ToolProgress {
                id: id@,
                message: message@,
            },
            AgentEvent::InterventionRequired(req) => EventView::InterventionRequired {
                request_id: req.request_id@,
                title: req.title@,
                description: req.description@,
                options: text::texts(req.options@),
            },
            AgentEvent::Done => EventView::Done,
        }
    }
}

// ── Error hints ─────────────────────────────────────────────────────────

/// The hint for an error, out of its text in lower case.
pub open spec fn error_hint(lower: Seq<char>) -> Option<Seq<char>> {
    if text::contains_text(lower, "api key"@) || text::contains_text(lower, "apikey"@)
        || text::contains_text(lower, "unauthorized"@) || text::contains_text(lower, "401"@) {
        Some("Check that DEEPSEEK_API is set correctly in your environment or .env file."@)
    } else if text::contains_text(lower, "rate limit"@) || text::contains_text(lower, "429"@) {
        Some("Rate limited — wait a moment before retrying."@)
    } else if text::contains_text(lower, "timeout"@) || text::contains_text(lower, "timed out"@) {
        Some("The request timed out — check your network connection and try again."@)
    } else if text::contains_text(lower, "connect"@) || text::contains_text(lower, "dns"@)
        || text::contains_text(lower, "network"@) {
        Some("Network error — check your connection and proxy settings."@)
    } else {
        None
    }
}

/// The hint for an error, out of its text in lower case.
pub fn hint_for(lower: &str) -> (r: Option<&'static str>)
    ensures
        match r {
            Some(h) => error_hint(lower@) == Some(h@),
            None => error_hint(lower@) is None,
        },
{
    if text::has_text(lower, "api key") || text::has_text(lower, "apikey") || text::has_text(
        lower,
        "unauthorized",
    ) || text::has_text(lower, "401") {
        Some("Check that DEEPSEEK_API is set correctly in your environment or .env file.")
    } else if text::has_text(lower, "rate limit") || text::has_text(lower, "429") {
        Some("Rate limited — wait a moment before retrying.")
    } else if text::has_text(lower, "timeout") || text::has_text(lower, "timed out") {
        Some("The request timed out — check your network connection and try again.")
    } else if text::has_text(lower, "connect") || text::has_text(lower, "dns") || text::has_text(
        lower,
        "network",
    ) {
        Some("Network error — check your connection and proxy settings.")
    } else {
        None
    }
}

/// An error with its hint, where there is one.
pub open spec fn with_hint(error: Seq<char>, hint: Option<Seq<char>>) -> Seq<char> {
    match hint {
        Some(h) => error + "\nHint: "@ + h,
        None => error,
    }
}

/// An error with the hint that fits it.
pub open spec fn improved(error: Seq<char>) -> Seq<char> {
    with_hint(error, error_hint(text::lowercase(error)))
}

/// Appends a hint to an error of a known category; an other one stays as it
/// is.
pub fn improve_error_message(error: &str) -> (r: String)
    ensures
        r@ == improved(error@),
{
    let lower = text::to_lowercase(error);
    match hint_for(lower.as_str()) {
        Some(h) => text::cat3(error, "\nHint: ", h),
        None => error.to_owned(),
    }
}

/// An error that no hint fits is shown as it came; a hint never changes it.
pub proof fn law_hint_only_appends(error: Seq<char>)
    ensures
        text::begins_with(improved(error), error),
        error_hint(text::lowercase(error)) is None ==> improved(error) == error,
{
    assert(improved(error).subrange(0, error.len() as int) =~= error);
}

// ── Tool calls ──────────────────────────────────────────────────────────

/// Whether a message is the tool call `id`; with `running`, one that has not
/// ended yet.
pub open spec fn is_call(m: MessageView, id: Seq<char>, running: bool) -> bool {
    m matches MessageView::ToolCall { id: mid, state, .. } && mid == id && (running ==> state
        is Running)
}

/// The last message that is the tool call `id`, or -1.
pub open spec fn last_call(ms: Seq<MessageView>, id: Seq<char>, running: bool) -> int
    decreases ms.len(),
{
    if ms.len() == 0 {
        -1
    } else if is_call(ms.last(), id, running) {
        ms.len() - 1
    } else {
        last_call(ms.drop_last(), id, running)
    }
}

pub proof fn lemma_last_call(ms: Seq<MessageView>, id: Seq<char>, running: bool)
    ensures
        -1 <= last_call(ms, id, running) < ms.len(),
        last_call(ms, id, running) >= 0 ==> is_call(
            ms[last_call(ms, id, running)],
            id,
            running,
        ),
        forall|i: int|
            last_call(ms, id, running) < i < ms.len() ==> !is_call(#[trigger] ms[i], id, running),
    decreases ms.len(),
{
    if ms.len() > 0 && !is_call(ms.last(), id, running) {
        lemma_last_call(ms.drop_last(), id, running);
        assert forall|i: int| last_call(ms, id, running) < i < ms.len() implies !is_call(
            #[trigger] ms[i],
            id,
            running,
        ) by {
            if i < ms.len() - 1 {
                assert(ms[i] == ms.drop_last()[i]);
            }
        }
    }
}

/// A tool call with other arguments.
pub open spec fn set_args(m: MessageView, arguments: Seq<char>) -> MessageView {
    match m {
        MessageView::ToolCall { id, name, state, origin, progress_lines, timestamp, .. } =>
            MessageView::ToolCall {
                id,
                name,
                args: arguments,
                state,
                origin,
                progress_lines,
                timestamp,
            },
        _ => m,
    }
}

/// A tool call in another state.
pub open spec fn set_state(m: MessageView, s: ToolCallStateView) -> MessageView {
    match m {
        MessageView::ToolCall { id, name, args, origin, progress_lines, timestamp, .. } =>
            MessageView::ToolCall {
                id,
                name,
                args,
                state: s,
                origin,
                progress_lines,
                timestamp,
            },
        _ => m,
    }
}

/// A tool call with one progress message more.
pub open spec fn add_progress(m: MessageView, message: Seq<char>) -> MessageView {
    match m {
        MessageView::ToolCall { id, name, args, state, origin, progress_lines, timestamp } =>
            MessageView::ToolCall {
                id,
                name,
                args,
                state,
                origin,
                progress_lines: progress_lines.push(message),
                timestamp,
            },
        _ => m,
    }
}

/// The messages with the last tool call `id` in another state.
pub open spec fn finished(ms: Seq<MessageView>, id: Seq<char>, s: ToolCallStateView) -> Seq<
    MessageView,
> {
    let i = last_call(ms, id, false);
    if i >= 0 {
        ms.update(i, set_state(ms[i], s))
    } else {
        ms
    }
}

/// A new tool call.
pub open spec fn new_call(
    id: Seq<char>,
    name: Seq<char>,
    args: Seq<char>,
    origin: CallOrigin,
    now: Seq<char>,
) -> MessageView {
    MessageView::ToolCall {
        id,
        name,
        args,
        state: ToolCallStateView::Running,
        origin,
        progress_lines: Seq::empty(),
        timestamp: now,
    }
}

/// The messages with a piece of the answer: it goes to the last message, or
/// starts one.
pub open spec fn with_token(ms: Seq<MessageView>, t: Seq<char>, now: Seq<char>) -> Seq<MessageView> {
    if ms.len() > 0 && ms.last() is Assistant {
        ms.update(
            ms.len() - 1,
            MessageView::Assistant {
                content: ms.last()->Assistant_content + t,
                timestamp: ms.last()->Assistant_timestamp,
            },
        )
    } else {
        ms.push(MessageView::Assistant { content: t, timestamp: now })
    }
}

/// The messages with a piece of reasoning.
pub open spec fn with_reasoning(ms: Seq<MessageView>, t: Seq<char>, now: Seq<char>) -> Seq<
    MessageView,
> {
    if ms.len() > 0 && ms.last() is Reasoning {
        ms.update(
            ms.len() - 1,
            MessageView::Reasoning {
                content: ms.last()->Reasoning_content + t,
                timestamp: ms.last()->Reasoning_timestamp,
            },
        )
    } else {
        ms.push(MessageView::Reasoning { content: t, timestamp: now })
    }
}

/// What an event does to the state, before scrolling.
pub open spec fn on_event(a: AppView, e: EventView, now: Seq<char>, now_ms: u64) -> AppView {
    match e {
        EventView::RunStarted => AppView {
            streaming: true,
            run_started_at: Some(now_ms),
            ..a
        },
        EventView::RunCompleted => AppView { streaming: false, run_started_at: None, ..a },
        EventView::RunFailed { error } => (AppView {
            selection: None,
            run_started_at: None,
            ..a
        }).with_error(
            improved(error) + "\n\nPress Ctrl+R to retry the last submission."@,
            now,
        ),
        EventView::Cancelled => (AppView {
            selection: None,
            run_started_at: None,
            ..a
        }).with_system("[Cancelled]"@, now),
        EventView::Token(t) => AppView { messages: with_token(a.messages, t, now), ..a },
        EventView::ReasoningToken(t) => AppView {
            messages: with_reasoning(a.messages, t, now),
            ..a
        },
        EventView::ToolCallStart { id, name } => (AppView { selection: None, ..a }).with_message(
            new_call(id, name, Seq::empty(), CallOrigin::Llm, now),
        ),
        EventView::ToolCall { id, name, arguments, origin } => {
            let i = last_call(a.messages, id, true);
            if i >= 0 {
                AppView {
                    messages: a.messages.update(i, set_args(a.messages[i], arguments)),
                    ..a
                }
            } else {
                a.with_message(new_call(id, name, arguments, origin, now))
            }
        },
        EventView::ToolSuccessful { id, output } => AppView {
            messages: finished(a.messages, id, ToolCallStateView::Complete(output)),
            ..a
        },
        EventView::ToolRejected { id, reason } => AppView {
            messages: finished(a.messages, id, ToolCallStateView::Rejected(reason)),
            ..a
        },
        EventView::ToolFailure { id, error } => AppView {
            messages: finished(a.messages, id, ToolCallStateView::Error(error)),
            ..a
        },
        EventView::ToolProgress { id, message } => {
            let i = last_call(a.messages, id, true);
            if i >= 0 {
                AppView {
                    messages: a.messages.update(i, add_progress(a.messages[i], message)),
                    ..a
                }
            } else {
                a
            }
        },
        EventView::InterventionRequired { request_id, title, description, options } => (AppView {
            selection: None,
            intervene_selection: Some(0),
            ..a
        }).with_message(
            MessageView::Intervene {
                request_id,
                title,
                description,
                options,
                responded: false,
                chosen: None,
                custom_text: None,
                timestamp: now,
            },
        ),
        EventView::Done => AppView { streaming: false, run_started_at: None, ..a },
    }
}

/// What an event does to the state: where nothing was scrolled up, the
/// bottom stays in view.
pub open spec fn applied(a: AppView, e: EventView, now: Seq<char>, now_ms: u64) -> AppView {
    let b = on_event(a, e, now, now_ms);
    if b.auto_scroll {
        AppView { scroll_offset: 0, ..b }
    } else {
        b
    }
}

/// The index of the last message that is the tool call `id`.
fn find_call(ms: &Vec<ChatMessage>, id: &str, running: bool) -> (r: Option<usize>)
    ensures
        match r {
            Some(i) => i == last_call(messages::messages_view(ms@), id@, running) && i < ms@.len(),
            None => last_call(messages::messages_view(ms@), id@, running) < 0,
        },
{
    let ghost all = messages::messages_view(ms@);
    let mut n: usize = ms.len();
    assert(all.take(n as int) =~= all);
    while n > 0
        invariant
            n <= ms@.len(),
            all == messages::messages_view(ms@),
            last_call(all.take(n as int), id@, running) == last_call(all, id@, running),
        decreases n,
    {
        assert(all.take(n as int).last() == ms@[n - 1]@);
        assert(all.take(n as int).drop_last() =~= all.take(n - 1));
        let hit = match &ms[n - 1] {
            ChatMessage::ToolCall { id: mid, state, .. } => {
                text::same_text(mid.as_str(), id) && (!running || match state {
                    ToolCallState::Running => true,
                    _ => false,
                })
            },
            _ => false,
        };
        if hit {
            return Some(n - 1);
        }
        n = n - 1;
    }
    None
}

/// Replaces the message at `i`.
fn set_message(ms: &mut Vec<ChatMessage>, i: usize, m: ChatMessage)
    requires
        i < old(ms)@.len(),
    ensures
        messages::messages_view(final(ms)@) == messages::messages_view(old(ms)@).update(
            i as int,
            m@,
        ),
{
    let ghost before = messages::messages_view(ms@);
    ms.set(i, m);
    assert(messages::messages_view(ms@) =~= before.update(i as int, m@));
}

/// The tool call `m` with other arguments, another state or one progress
/// message more.
fn changed_call(
    m: &ChatMessage,
    args: Option<String>,
    state: Option<ToolCallState>,
    progress: Option<String>,
) -> (r: ChatMessage)
    requires
        m is ToolCall,
    ensures
        r@ == ({
            let a = match args {
                Some(s) => set_args(m@, s@),
                None => m@,
            };
            let b = match state {
                Some(s) => set_state(a, s@),
                None => a,
            };
            match progress {
                Some(p) => add_progress(b, p@),
                None => b,
            }
        }),
{
    match m {
        ChatMessage::ToolCall {
            id,
            name,
            args: old_args,
            state: old_state,
            origin,
            progress_lines,
            timestamp,
        } => {
            let mut lines = text::clone_texts(progress_lines);
            match progress {
                Some(p) => {
                    text::push_text(&mut lines, p);
                },
                None => {},
            }
            ChatMessage::ToolCall {
                id: id.clone(),
                name: name.clone(),
                args: match args {
                    Some(s) => s,
                    None => old_args.clone(),
                },
                state: match state {
                    Some(s) => s,
                    None => copy_state(old_state),
                },
                origin: *origin,
                progress_lines: lines,
                timestamp: timestamp.clone(),
            }
        },
        _ => ChatMessage::System { content: String::new(), timestamp: String::new() },
    }
}

fn copy_state(s: &ToolCallState) -> (r: ToolCallState)
    ensures
        r@ == s@,
{
    match s {
        ToolCallState::Running => ToolCallState::Running,
        ToolCallState::Complete(x) => ToolCallState::Complete(x.clone()),
        ToolCallState::Rejected(x) => ToolCallState::Rejected(x.clone()),
        ToolCallState::Error(x) => ToolCallState::Error(x.clone()),
    }
}

impl App {
    fn finish_call(&mut self, id: &str, state: ToolCallState)
        ensures
            final(self)@ == (AppView {
                messages: finished(old(self)@.messages, id@, state@),
                ..old(self)@
            }),
    {
        reveal(app::app_view);
        match find_call(&self.messages, id, false) {
            Some(i) => {
                proof {
                    lemma_last_call(self@.messages, id@, false);
                }
                assert(self@.messages[i as int] == self.messages@[i as int]@);
                let m = changed_call(&self.messages[i], None, Some(state), None);
                set_message(&mut self.messages, i, m);
            },
            None => {},
        }
    }

    fn add_token(&mut self, t: String, now: &str)
        ensures
            final(self)@ == (AppView {
                messages: with_token(old(self)@.messages, t@, now@),
                ..old(self)@
            }),
    {
        reveal(app::app_view);
        let n: usize = self.messages.len();
        let joined = if n > 0 {
            assert(self@.messages.last() == self.messages@[n - 1]@);
            match &self.messages[n - 1] {
                ChatMessage::Assistant { content, timestamp } => Some(
                    (text::cat2(content.as_str(), t.as_str()), timestamp.clone()),
                ),
                _ => None,
            }
        } else {
            None
        };
        match joined {
            Some((content, timestamp)) => {
                set_message(
                    &mut self.messages,
                    n - 1,
                    ChatMessage::Assistant { content, timestamp },
                );
            },
            None => {
                push_message(
                    &mut self.messages,
                    ChatMessage::Assistant { content: t, timestamp: now.to_owned() },
                );
            },
        }
    }

    fn add_reasoning(&mut self, t: String, now: &str)
        ensures
            final(self)@ == (AppView {
                messages: with_reasoning(old(self)@.messages, t@, now@),
                ..old(self)@
            }),
    {
        reveal(app::app_view);
        let n: usize = self.messages.len();
        let joined = if n > 0 {
            assert(self@.messages.last() == self.messages@[n - 1]@);
            match &self.messages[n - 1] {
                ChatMessage::Reasoning { content, timestamp } => Some(
                    (text::cat2(content.as_str(), t.as_str()), timestamp.clone()),
                ),
                _ => None,
            }
        } else {
            None
        };
        match joined {
            Some((content, timestamp)) => {
                set_message(
                    &mut self.messages,
                    n - 1,
                    ChatMessage::Reasoning { content, timestamp },
                );
            },
            None => {
                push_message(
                    &mut self.messages,
                    ChatMessage::Reasoning { content: t, timestamp: now.to_owned() },
                );
            },
        }
    }

    fn add_call(&mut self, id: String, name: String, arguments: String, origin: CallOrigin, now: &str)
        ensures
            final(self)@ == on_event(
                old(self)@,
                EventView::ToolCall { id: id@, name: name@, arguments: arguments@, origin },
                now@,
                0,
            ),
    {
        reveal(app::app_view);
        match find_call(&self.messages, id.as_str(), true) {
            Some(i) => {
                proof {
                    lemma_last_call(self@.messages, id@, true);
                }
                assert(self@.messages[i as int] == self.messages@[i as int]@);
                let m = changed_call(&self.messages[i], Some(arguments), None, None);
                set_message(&mut self.messages, i, m);
            },
            None => {
                push_message(&mut self.messages, running_call(id, name, arguments, origin, now));
            },
        }
    }

    fn note_progress(&mut self, id: String, message: String)
        ensures
            final(self)@ == on_event(
                old(self)@,
                EventView::ToolProgress { id: id@, message: message@ },
                Seq::empty(),
                0,
            ),
    {
        reveal(app::app_view);
        match find_call(&self.messages, id.as_str(), true) {
            Some(i) => {
                proof {
                    lemma_last_call(self@.messages, id@, true);
                }
                assert(self@.messages[i as int] == self.messages@[i as int]@);
                let m = changed_call(&self.messages[i], None, None, Some(message));
                set_message(&mut self.messages, i, m);
            },
            None => {},
        }
    }

    fn ask_user(&mut self, req: InterventionRequest, now: &str)
        ensures
            final(self)@ == on_event(
                old(self)@,
                AgentEvent::InterventionRequired(req)@,
                now@,
                0,
            ),
    {
        reveal(app::app_view);
        self.selection = None;
        push_message(
            &mut self.messages,
            ChatMessage::Intervene {
                request_id: req.request_id,
                title: req.title,
                description: req.description,
                options: req.options,
                responded: false,
                chosen: None,
                custom_text: None,
                timestamp: now.to_owned(),
            },
        );
        self.intervene_selection = Some(0);
    }

    fn start_run(&mut self, now_ms: u64)
        ensures
            final(self)@ == (AppView {
                streaming: true,
                run_started_at: Some(now_ms),
                ..old(self)@
            }),
    {
        reveal(app::app_view);
        self.streaming = true;
        self.run_started_at = Some(now_ms);
    }

    fn end_run(&mut self)
        ensures
            final(self)@ == (AppView { streaming: false, run_started_at: None, ..old(self)@ }),
    {
        reveal(app::app_view);
        self.streaming = false;
        self.run_started_at = None;
    }

    fn drop_run(&mut self)
        ensures
            final(self)@ == (AppView { selection: None, run_started_at: None, ..old(self)@ }),
    {
        reveal(app::app_view);
        self.selection = None;
        self.run_started_at = None;
    }

    fn begin_call(&mut self, id: String, name: String, now: &str)
        ensures
            final(self)@ == (AppView { selection: None, ..old(self)@ }).with_message(
                new_call(id@, name@, Seq::empty(), CallOrigin::Llm, now@),
            ),
    {
        reveal(app::app_view);
        self.selection = None;
        push_message(
            &mut self.messages,
            running_call(id, name, String::new(), CallOrigin::Llm, now),
        );
    }

    fn show_event(&mut self, event: AgentEvent, now: &str, now_ms: u64)
        ensures
            final(self)@ == on_event(old(self)@, event@, now@, now_ms),
    {
        match event {
            AgentEvent::RunStarted { .. } => {
                self.start_run(now_ms);
            },
            AgentEvent::RunCompleted { .. } => {
                self.end_run();
            },
            AgentEvent::RunFailed { error } => {
                self.drop_run();
                let shown = improve_error_message(error.as_str());
                let content = text::cat2(
                    shown.as_str(),
                    "\n\nPress Ctrl+R to retry the last submission.",
                );
                self.push_error(content, now);
            },
            AgentEvent::Cancelled => {
                self.drop_run();
                self.push_system("[Cancelled]".to_owned(), now);
            },
            AgentEvent::Token(t) => {
                self.add_token(t, now);
            },
            AgentEvent::ReasoningToken(t) => {
                self.add_reasoning(t, now);
            },
            AgentEvent::ToolCallStart { id, name } => {
                self.begin_call(id, name, now);
            },
            AgentEvent::ToolCall { id, name, arguments, origin } => {
                self.add_call(id, name, arguments, origin, now);
            },
            AgentEvent::ToolSuccessful { id, output, .. } => {
                self.finish_call(id.as_str(), ToolCallState::Complete(output));
            },
            AgentEvent::ToolRejected { id, reason, .. } => {
                self.finish_call(id.as_str(), ToolCallState::Rejected(reason));
            },
            AgentEvent::ToolFailure { id, error, .. } => {
                self.finish_call(id.as_str(), ToolCallState::Error(error));
            },
            AgentEvent::ToolProgress { id, message, .. } => {
                self.note_progress(id, message);
            },
            AgentEvent::InterventionRequired(req) => {
                self.ask_user(req, now);
            },
            AgentEvent::Done => {
                self.end_run();
            },
        }
    }

    /// Shows an event of the agent. `now` is the time of day, `now_ms` the
    /// time in milliseconds.
    pub fn apply_event(&mut self, event: AgentEvent, now: &str, now_ms: u64)
        ensures
            final(self)@ == applied(old(self)@, event@, now@, now_ms),
            old(self)@.wf() ==> final(self)@.wf(),
    {
        reveal(app::app_view);
        self.show_event(event, now, now_ms);
        if self.auto_scroll {
            self.scroll_offset = 0;
        }
    }
}

fn running_call(id: String, name: String, args: String, origin: CallOrigin, now: &str) -> (r:
    ChatMessage)
    ensures
        r@ == new_call(id@, name@, args@, origin, now@),
{
    let r = ChatMessage::ToolCall {
        id,
        name,
        args,
        state: ToolCallState::Running,
        origin,
        progress_lines: Vec::new(),
        timestamp: now.to_owned(),
    };
    assert(r@->ToolCall_progress_lines =~= Seq::<Seq<char>>::empty());
    r
}

// ── Laws ────────────────────────────────────────────────────────────────

/// An event never takes a message away.
pub proof fn law_events_keep_messages(a: AppView, e: EventView, now: Seq<char>, now_ms: u64)
    ensures
        applied(a, e, now, now_ms).messages.len() >= a.messages.len(),
{
    match e {
        EventView::ToolCall { id, .. } => lemma_last_call(a.messages, id, true),
        EventView::ToolProgress { id, .. } => lemma_last_call(a.messages, id, true),
        EventView::ToolSuccessful { id, .. } => lemma_last_call(a.messages, id, false),
        EventView::ToolRejected { id, .. } => lemma_last_call(a.messages, id, false),
        EventView::ToolFailure { id, .. } => lemma_last_call(a.messages, id, false),
        _ => {},
    }
}

/// Every way in which a run ends stops the clock of the status bar.
pub proof fn law_run_end_stops_the_clock(a: AppView, e: EventView, now: Seq<char>, now_ms: u64)
    requires
        e is RunCompleted || e is RunFailed || e is Cancelled || e is Done,
    ensures
        applied(a, e, now, now_ms).run_started_at is None,
{
}

/// Two pieces of an answer, one after the other, read as one piece.
pub proof fn law_tokens_join(a: AppView, s: Seq<char>, t: Seq<char>, now: Seq<char>, now_ms: u64)
    ensures
        applied(
            applied(a, EventView::Token(s), now, now_ms),
            EventView::Token(t),
            now,
            now_ms,
        ).messages == applied(a, EventView::Token(s + t), now, now_ms).messages,
{
    let one = with_token(a.messages, s, now);
    if a.messages.len() > 0 && a.messages.last() is Assistant {
        assert(a.messages.last()->Assistant_content + s + t =~= a.messages.last()->Assistant_content
            + (s + t));
    }
    assert(with_token(one, t, now) =~= with_token(a.messages, s + t, now));
}

/// The arguments of a call that has begun go to that call: no second entry
/// comes up for it.
pub proof fn law_call_is_not_doubled(
    a: AppView,
    id: Seq<char>,
    name: Seq<char>,
    arguments: Seq<char>,
    origin: CallOrigin,
    now: Seq<char>,
    now_ms: u64,
)
    ensures
        ({
            let b = applied(a, EventView::ToolCallStart { id, name }, now, now_ms);
            let c = applied(b, EventView::ToolCall { id, name, arguments, origin }, now, now_ms);
            &&& c.messages.len() == a.messages.len() + 1
            &&& c.messages.last() == new_call(id, name, arguments, CallOrigin::Llm, now)
        }),
{
    let b = applied(a, EventView::ToolCallStart { id, name }, now, now_ms);
    assert(is_call(b.messages.last(), id, true));
}

/// While the user has scrolled up, events leave the view where it is.
pub proof fn law_scrolled_view_stays(a: AppView, e: EventView, now: Seq<char>, now_ms: u64)
    requires
        !a.auto_scroll,
    ensures
        applied(a, e, now, now_ms).scroll_offset == a.scroll_offset,
        !applied(a, e, now, now_ms).auto_scroll,
{
}

} // verus!
