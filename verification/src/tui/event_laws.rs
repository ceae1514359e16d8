//! What the events of a run and of the terminal do to the chat, stated on the
//! messages before and after them.

use vstd::prelude::*;
use crate::app;
use crate::memory::{CallView, RecordView, Role};
use crate::text;
use crate::text_laws;
use crate::tui::agent_event::{self, applied, EventView};
use crate::tui::app::AppView;
use crate::tui::event::{self, KeyKind, TerminalView};
use crate::tui::input;
use crate::tui::keyboard::KeyEvent;
use crate::tui::messages::{CallOrigin, MessageView, ThreadView, ToolCallStateView};
use crate::tui::resume::{self, ArchiveView};
use crate::tui::shell_exec;
use crate::tui::slash::FactsView;

verus! {

// ── Runs ────────────────────────────────────────────────────────────────

/// A run that starts is under way from then on; one that completes is over.
/// Neither says anything.
pub proof fn law_runs_start_and_end(a: AppView, now: Seq<char>, now_ms: u64)
    ensures
        ({
            let b = applied(a, EventView::RunStarted, now, now_ms);
            let c = applied(a, EventView::RunCompleted, now, now_ms);
            let d = applied(a, EventView::Done, now, now_ms);
            &&& b.streaming && b.run_started_at == Some(now_ms) && b.messages == a.messages
            &&& !c.streaming && c.run_started_at is None && c.messages == a.messages
            &&& !d.streaming && d.run_started_at is None && d.messages == a.messages
            &&& b.input == a.input && c.input == a.input && d.input == a.input
        }),
{
}

/// A run that fails leaves one error, which begins with what went wrong and
/// says how to try again; one that is cancelled leaves one word of it.
pub proof fn law_failures_are_shown(a: AppView, error: Seq<char>, now: Seq<char>, now_ms: u64)
    ensures
        ({
            let b = applied(a, EventView::RunFailed { error }, now, now_ms);
            let c = applied(a, EventView::Cancelled, now, now_ms);
            &&& b.messages.len() == a.messages.len() + 1
            &&& b.messages.drop_last() == a.messages
            &&& (b.messages.last() matches MessageView::Error { content, .. } && text::begins_with(
                content,
                error,
            ) && text::finishes_with(content, "Press Ctrl+R to retry the last submission."@))
            &&& b.run_started_at is None
            &&& c.messages.len() == a.messages.len() + 1
            &&& c.messages.drop_last() == a.messages
            &&& c.messages.last() is System
            &&& c.run_started_at is None
        }),
{
    let b = applied(a, EventView::RunFailed { error }, now, now_ms);
    let c = applied(a, EventView::Cancelled, now, now_ms);
    assert(b.messages.drop_last() =~= a.messages);
    assert(c.messages.drop_last() =~= a.messages);
    let s = b.messages.last()->Error_content;
    agent_event::law_hint_only_appends(error);
    let i = agent_event::improved(error);
    assert(i.subrange(0, error.len() as int) =~= s.subrange(0, error.len() as int));
    reveal_strlit("\n\nPress Ctrl+R to retry the last submission.");
    reveal_strlit("Press Ctrl+R to retry the last submission.");
    let end = "Press Ctrl+R to retry the last submission."@;
    assert("\n\nPress Ctrl+R to retry the last submission."@.skip(2) =~= end);
    assert(s.subrange(s.len() - end.len(), s.len() as int) =~= end);
}

/// Where an error points at the key, the rate, the time or the network, the
/// user gets a hint on that, and on the first of them that fits.
pub proof fn law_errors_have_hints(lower: Seq<char>)
    ensures
        ({
            let has = |w: Seq<char>| text::contains_text(lower, w);
            let key = has("api key"@) || has("apikey"@) || has("unauthorized"@) || has("401"@);
            let rate = has("rate limit"@) || has("429"@);
            let time = has("timeout"@) || has("timed out"@);
            let net = has("connect"@) || has("dns"@) || has("network"@);
            let h = agent_event::error_hint(lower);
            &&& key ==> (h matches Some(s) && text::contains_text(s, "DEEPSEEK_API"@))
            &&& !key && rate ==> (h matches Some(s) && text::begins_with(s, "Rate limited"@))
            &&& !key && !rate && time ==> (h matches Some(s) && text::contains_text(
                s,
                "timed out"@,
            ))
            &&& !key && !rate && !time && net ==> (h matches Some(s) && text::begins_with(
                s,
                "Network error"@,
            ))
            &&& !key && !rate && !time && !net ==> h is None
        }),
{
    let a = "Check that DEEPSEEK_API is set correctly in your environment or .env file."@;
    let b = "Rate limited — wait a moment before retrying."@;
    let c = "The request timed out — check your network connection and try again."@;
    let d = "Network error — check your connection and proxy settings."@;
    reveal_strlit("Check that DEEPSEEK_API is set correctly in your environment or .env file.");
    reveal_strlit("Rate limited — wait a moment before retrying.");
    reveal_strlit("The request timed out — check your network connection and try again.");
    reveal_strlit("Network error — check your connection and proxy settings.");
    reveal_strlit("DEEPSEEK_API");
    reveal_strlit("Rate limited");
    reveal_strlit("timed out");
    reveal_strlit("Network error");
    assert(a.subrange(11, 23) =~= "DEEPSEEK_API"@);
    assert(text::occurs_at(a, "DEEPSEEK_API"@, 11));
    assert(b.subrange(0, 12) =~= "Rate limited"@);
    assert(c.subrange(12, 21) =~= "timed out"@);
    assert(text::occurs_at(c, "timed out"@, 12));
    assert(d.subrange(0, 13) =~= "Network error"@);
}

/// Words of the model go on where the last message is its answer, and begin a
/// new answer else; its thoughts likewise. All other messages stay.
pub proof fn law_words_go_on(
    a: AppView,
    ms: Seq<MessageView>,
    content: Seq<char>,
    then: Seq<char>,
    t: Seq<char>,
    now: Seq<char>,
    now_ms: u64,
)
    ensures
        a.messages == ms.push(MessageView::Assistant { content, timestamp: then }) ==> applied(
            a,
            EventView::Token(t),
            now,
            now_ms,
        ).messages == ms.push(MessageView::Assistant { content: content + t, timestamp: then }),
        a.messages.len() == 0 || !(a.messages.last() is Assistant) ==> applied(
            a,
            EventView::Token(t),
            now,
            now_ms,
        ).messages == a.messages.push(MessageView::Assistant { content: t, timestamp: now }),
        a.messages == ms.push(MessageView::Reasoning { content, timestamp: then }) ==> applied(
            a,
            EventView::ReasoningToken(t),
            now,
            now_ms,
        ).messages == ms.push(MessageView::Reasoning { content: content + t, timestamp: then }),
        a.messages.len() == 0 || !(a.messages.last() is Reasoning) ==> applied(
            a,
            EventView::ReasoningToken(t),
            now,
            now_ms,
        ).messages == a.messages.push(MessageView::Reasoning { content: t, timestamp: now }),
{
    let n = ms.len() as int;
    let x = MessageView::Assistant { content: content + t, timestamp: then };
    let y = MessageView::Reasoning { content: content + t, timestamp: then };
    assert(ms.push(MessageView::Assistant { content, timestamp: then }).update(n, x) =~= ms.push(
        x,
    ));
    assert(ms.push(MessageView::Reasoning { content, timestamp: then }).update(n, y) =~= ms.push(
        y,
    ));
}

// ── Calls ───────────────────────────────────────────────────────────────

/// Whether none of the messages is a call of this name.
pub open spec fn without_call(ms: Seq<MessageView>, id: Seq<char>) -> bool {
    forall|i: int|
        0 <= i < ms.len() ==> !(#[trigger] ms[i] is ToolCall && ms[i]->ToolCall_id == id)
}

proof fn lemma_last_call(
    x: Seq<MessageView>,
    m: MessageView,
    y: Seq<MessageView>,
    id: Seq<char>,
    running: bool,
)
    requires
        agent_event::is_call(m, id, running),
        without_call(y, id),
    ensures
        agent_event::last_call(x + seq![m] + y, id, running) == x.len(),
    decreases y.len(),
{
    let all = x + seq![m] + y;
    if y.len() == 0 {
        assert(all.last() == m);
    } else {
        assert(all.last() == y.last());
        assert(!(y[y.len() - 1] is ToolCall && y[y.len() - 1]->ToolCall_id == id));
        let z = y.drop_last();
        assert(all.drop_last() =~= x + seq![m] + z);
        assert(without_call(z, id)) by {
            assert forall|i: int| 0 <= i < z.len() implies !(#[trigger] z[i] is ToolCall
                && z[i]->ToolCall_id == id) by {
                assert(z[i] == y[i]);
            }
        }
        lemma_last_call(x, m, z, id, running);
    }
}

proof fn lemma_no_call(y: Seq<MessageView>, id: Seq<char>, running: bool)
    requires
        without_call(y, id),
    ensures
        agent_event::last_call(y, id, running) < 0,
    decreases y.len(),
{
    if y.len() > 0 {
        assert(!(y[y.len() - 1] is ToolCall && y[y.len() - 1]->ToolCall_id == id));
        let z = y.drop_last();
        assert(without_call(z, id)) by {
            assert forall|i: int| 0 <= i < z.len() implies !(#[trigger] z[i] is ToolCall
                && z[i]->ToolCall_id == id) by {
                assert(z[i] == y[i]);
            }
        }
        lemma_no_call(z, id, running);
    }
}

/// What came of a call is shown with the last call of its name, and nowhere
/// else: its answer, why it was refused, or how it failed.
pub proof fn law_calls_get_their_outcome(
    a: AppView,
    x: Seq<MessageView>,
    y: Seq<MessageView>,
    id: Seq<char>,
    name: Seq<char>,
    args: Seq<char>,
    state: ToolCallStateView,
    origin: CallOrigin,
    lines: Seq<Seq<char>>,
    then: Seq<char>,
    s: Seq<char>,
    now: Seq<char>,
    now_ms: u64,
)
    requires
        without_call(y, id),
    ensures
        ({
            let call = |t: ToolCallStateView|
                MessageView::ToolCall {
                    id,
                    name,
                    args,
                    state: t,
                    origin,
                    progress_lines: lines,
                    timestamp: then,
                };
            let after = |e: EventView| applied(a, e, now, now_ms).messages;
            &&& a.messages == x + seq![call(state)] + y ==> {
                &&& after(EventView::ToolSuccessful { id, output: s }) == x + seq![
                    call(ToolCallStateView::Complete(s)),
                ] + y
                &&& after(EventView::ToolRejected { id, reason: s }) == x + seq![
                    call(ToolCallStateView::Rejected(s)),
                ] + y
                &&& after(EventView::ToolFailure { id, error: s }) == x + seq![
                    call(ToolCallStateView::Error(s)),
                ] + y
            }
            &&& a.messages == y ==> {
                &&& after(EventView::ToolSuccessful { id, output: s }) == y
                &&& after(EventView::ToolRejected { id, reason: s }) == y
                &&& after(EventView::ToolFailure { id, error: s }) == y
                &&& after(EventView::ToolProgress { id, message: s }) == y
            }
        }),
{
    let call = |t: ToolCallStateView|
        MessageView::ToolCall {
            id,
            name,
            args,
            state: t,
            origin,
            progress_lines: lines,
            timestamp: then,
        };
    let all = x + seq![call(state)] + y;
    lemma_last_call(x, call(state), y, id, false);
    assert(all[x.len() as int] == call(state));
    assert forall|m: MessageView| #[trigger] all.update(x.len() as int, m) == x + seq![m] + y by {
        assert(all.update(x.len() as int, m) =~= x + seq![m] + y);
    }
    lemma_no_call(y, id, false);
    lemma_no_call(y, id, true);
}

/// A call that is announced is shown as running; its arguments join it when
/// they are known, and what it reports while it runs. A call that was not
/// announced is shown with its arguments.
pub proof fn law_calls_are_shown(
    a: AppView,
    x: Seq<MessageView>,
    y: Seq<MessageView>,
    id: Seq<char>,
    name: Seq<char>,
    args: Seq<char>,
    origin: CallOrigin,
    lines: Seq<Seq<char>>,
    then: Seq<char>,
    s: Seq<char>,
    now: Seq<char>,
    now_ms: u64,
)
    requires
        without_call(y, id),
    ensures
        ({
            let call = |t: Seq<char>, l: Seq<Seq<char>>|
                MessageView::ToolCall {
                    id,
                    name,
                    args: t,
                    state: ToolCallStateView::Running,
                    origin,
                    progress_lines: l,
                    timestamp: then,
                };
            let after = |e: EventView| applied(a, e, now, now_ms).messages;
            let news = |t: Seq<char>, o: CallOrigin|
                MessageView::ToolCall {
                    id,
                    name,
                    args: t,
                    state: ToolCallStateView::Running,
                    origin: o,
                    progress_lines: Seq::empty(),
                    timestamp: now,
                };
            &&& after(EventView::ToolCallStart { id, name }) == a.messages.push(
                news(Seq::empty(), CallOrigin::Llm),
            )
            &&& a.messages == y ==> after(
                EventView::ToolCall { id, name, arguments: s, origin },
            ) == y.push(news(s, origin))
            &&& a.messages == x + seq![call(args, lines)] + y ==> {
                &&& after(EventView::ToolCall { id, name, arguments: s, origin }) == x + seq![
                    call(s, lines),
                ] + y
                &&& after(EventView::ToolProgress { id, message: s }) == x + seq![
                    call(args, lines.push(s)),
                ] + y
            }
        }),
{
    let call = |t: Seq<char>, l: Seq<Seq<char>>|
        MessageView::ToolCall {
            id,
            name,
            args: t,
            state: ToolCallStateView::Running,
            origin,
            progress_lines: l,
            timestamp: then,
        };
    let all = x + seq![call(args, lines)] + y;
    lemma_last_call(x, call(args, lines), y, id, true);
    assert(all[x.len() as int] == call(args, lines));
    assert forall|m: MessageView| #[trigger] all.update(x.len() as int, m) == x + seq![m] + y by {
        assert(all.update(x.len() as int, m) =~= x + seq![m] + y);
    }
    lemma_no_call(y, id, true);
}

/// A question is shown with its options, open, and with the first of them
/// highlighted.
pub proof fn law_questions_are_shown(
    a: AppView,
    request_id: Seq<char>,
    title: Seq<char>,
    description: Seq<char>,
    options: Seq<Seq<char>>,
    now: Seq<char>,
    now_ms: u64,
)
    ensures
        ({
            let b = applied(
                a,
                EventView::InterventionRequired { request_id, title, description, options },
                now,
                now_ms,
            );
            &&& b.messages.len() == a.messages.len() + 1
            &&& b.messages.drop_last() == a.messages
            &&& (b.messages.last() matches MessageView::Intervene {
                request_id: r,
                title: t,
                description: d,
                options: o,
                responded,
                ..
            } && r == request_id && t == title && d == description && o == options && !responded)
            &&& b.intervene_selection == Some(0usize)
        }),
{
    let b = applied(
        a,
        EventView::InterventionRequired { request_id, title, description, options },
        now,
        now_ms,
    );
    assert(b.messages.drop_last() =~= a.messages);
}

/// Where the end of the chat is followed, every event shows it; elsewhere the
/// view stays.
pub proof fn law_end_is_followed(a: AppView, e: EventView, now: Seq<char>, now_ms: u64)
    ensures
        a.auto_scroll ==> applied(a, e, now, now_ms).scroll_offset == 0,
        !a.auto_scroll ==> applied(a, e, now, now_ms).scroll_offset == a.scroll_offset,
        applied(a, e, now, now_ms).auto_scroll == a.auto_scroll,
{
}

// ── The terminal ────────────────────────────────────────────────────────

/// A key counts when it is pressed or repeats, and not when it is released; a
/// paste is pasted, a new size drops the selection and shows the end, and
/// other events change nothing.
pub proof fn law_terminal_events(a: AppView, key: KeyEvent, s: Seq<char>, f: FactsView)
    ensures
        event::on_terminal(a, TerminalView::Key { key, kind: KeyKind::Release }, f).0 == a,
        event::on_terminal(a, TerminalView::Key { key, kind: KeyKind::Release }, f).1 is None,
        event::on_terminal(a, TerminalView::Key { key, kind: KeyKind::Press }, f) == input::on_key(
            a,
            key,
            f,
        ),
        event::on_terminal(a, TerminalView::Key { key, kind: KeyKind::Repeat }, f)
            == input::on_key(a, key, f),
        event::on_terminal(a, TerminalView::Paste(s), f).0 == input::on_paste(a, s),
        event::on_terminal(a, TerminalView::Paste(s), f).1 is None,
        event::on_terminal(a, TerminalView::Resize, f).0 == (AppView {
            selection: None,
            scroll_offset: 0,
            auto_scroll: true,
            ..a
        }),
        event::on_terminal(a, TerminalView::Other, f).0 == a,
{
}

/// While a run is under way the spinner goes on by one frame when its time has
/// come, and starts over behind the last; else it rests.
pub proof fn law_spinner_turns(a: AppView, now_ms: u64)
    requires
        a.spinner_frame < 10,
    ensures
        ({
            let b = event::ticked(a, now_ms);
            let due = a.streaming && now_ms >= a.last_spinner_tick + 100;
            &&& !due ==> b == a
            &&& due && a.spinner_frame < 9 ==> b.spinner_frame == a.spinner_frame + 1
            &&& due && a.spinner_frame == 9 ==> b.spinner_frame == 0
            &&& due ==> b.last_spinner_tick == now_ms && b.messages == a.messages
        }),
{
}

// ── Conversations ───────────────────────────────────────────────────────

/// A message of the user comes back as it was, and an answer of the model with
/// the calls that it made; messages of the system do not come back, and what a
/// tool gave comes back under the call.
pub proof fn law_messages_come_back(r: RecordView, now: Seq<char>)
    ensures
        ({
            let v = resume::rebuilt(seq![r], now);
            &&& r.role == Role::System ==> v.len() == 0
            &&& r.role == Role::User ==> v == seq![
                MessageView::User { content: r.content, timestamp: now },
            ]
            &&& r.role == Role::Assistant && r.tool_calls is None ==> v == seq![
                MessageView::Assistant { content: r.content, timestamp: now },
            ]
            &&& r.role == Role::Assistant && r.tool_calls is Some ==> v.len() == 1 && (
            v[0] matches MessageView::Assistant { content, .. } && text::begins_with(
                content,
                r.content,
            ) && text::finishes_with(content, resume::call_lines(r.tool_calls->0)))
            &&& r.role == Role::Tool ==> v.len() == 1 && (v[0] matches MessageView::System {
                content,
                ..
            } && (r.tool_call_id matches Some(id) ==> text::begins_with(
                content,
                "[Tool result: "@ + id,
            )) && (text::byte_len(r.content) <= 500 ==> text::finishes_with(content, r.content)))
        }),
{
    let none = Seq::<RecordView>::empty();
    assert(seq![r].drop_last() =~= none);
    assert(resume::rebuilt(none, now) =~= Seq::<MessageView>::empty());
    let v = resume::rebuilt(seq![r], now);
    if r.role != Role::System {
        let m = resume::shown(r, now)->0;
        assert(v =~= seq![m]);
    }
    if r.role == Role::Assistant && r.tool_calls is Some {
        let c = resume::answer_of(r);
        let l = resume::call_lines(r.tool_calls->0);
        assert(c.subrange(0, r.content.len() as int) =~= r.content);
        assert(c.subrange(c.len() - l.len(), c.len() as int) =~= l);
    }
    if r.role == Role::Tool {
        let c = v[0]->System_content;
        if r.tool_call_id is Some {
            let head = "[Tool result: "@ + r.tool_call_id->0;
            assert(c.subrange(0, head.len() as int) =~= head);
        }
        if text::byte_len(r.content) <= 500 {
            assert(c.subrange(c.len() - r.content.len(), c.len() as int) =~= r.content);
        }
    }
}

/// The calls of an answer stand one to a line, in their order, each with its
/// name and its number.
pub proof fn law_calls_come_back(calls: Seq<CallView>, c: CallView)
    ensures
        resume::call_lines(seq![c]) == "[Tool: "@ + c.name + " (id: "@ + c.id + ")]"@,
        calls.len() > 0 ==> resume::call_lines(calls.push(c)) == resume::call_lines(calls)
            + seq!['\n'] + resume::call_lines(seq![c]),
{
    reveal_strlit("\n");
    assert("\n"@ =~= seq!['\n']);
    let one = resume::call_line(c);
    let lines = |v: Seq<CallView>| Seq::new(v.len(), |i: int| resume::call_line(v[i]));
    assert(lines(seq![c]) =~= seq![one]);
    assert(lines(calls.push(c)) =~= lines(calls) + seq![one]);
    text_laws::law_joining(lines(calls), seq![one], one, "\n"@);
}

/// A conversation that is loaded replaces the chat, under its name and with
/// the end in view.
pub proof fn law_conversations_are_resumed(
    a: AppView,
    name: Seq<char>,
    rs: Seq<RecordView>,
    now: Seq<char>,
)
    ensures
        ({
            let b = resume::resumed(a, name, rs, now);
            &&& b.conversation_title == Some(name)
            &&& b.messages.skip(1) == resume::rebuilt(rs, now)
            &&& (b.messages[0] matches MessageView::System { content, .. } && text::contains_text(
                content,
                name,
            ))
            &&& b.auto_scroll && b.scroll_offset == 0
            &&& b.input == a.input && b.plan_active == a.plan_active
        }),
{
    let b = resume::resumed(a, name, rs, now);
    assert(b.messages.skip(1) =~= resume::rebuilt(rs, now));
    let c = b.messages[0]->System_content;
    let n = "Resumed conversation \""@.len() as int;
    assert(c.subrange(n, n + name.len()) =~= name);
    assert(text::occurs_at(c, name, n));
}

/// Saved conversations are offered in a list with the first one highlighted;
/// where there are none, or they cannot be listed, one message says so.
pub proof fn law_conversations_are_listed(
    a: AppView,
    threads: Seq<ThreadView>,
    e: Seq<char>,
    now: Seq<char>,
)
    ensures
        ({
            let b = resume::listed(a, Ok(threads), now);
            let c = resume::listed(a, Err(e), now);
            &&& threads.len() > 0 ==> (b.thread_picker matches Some(p) && p.threads == threads
                && p.selected == 0) && b.messages == a.messages
            &&& threads.len() == 0 ==> b.thread_picker == a.thread_picker && b.messages.len()
                == a.messages.len() + 1
            &&& c.thread_picker == a.thread_picker && c.messages.len() == a.messages.len() + 1
            &&& (c.messages.last() matches MessageView::Error { content, .. }
                && text::finishes_with(content, e))
        }),
{
    let s = "Error listing threads: "@ + e;
    assert(s.subrange(s.len() - e.len(), s.len() as int) =~= e);
}

/// The word on an approved plan says where the plan is kept, or why it is not.
pub proof fn law_approvals_name_the_archive(path: Seq<char>, e: Seq<char>)
    ensures
        text::contains_text(resume::approval_text(ArchiveView::Saved(path)), path),
        text::contains_text(resume::approval_text(ArchiveView::Failed(e)), e),
{
    let s = resume::approval_text(ArchiveView::Saved(path));
    let n = "Plan approved! Plan mode deactivated. Plan archived to: "@.len() as int;
    assert(s.subrange(n, n + path.len()) =~= path);
    assert(text::occurs_at(s, path, n));
    let t = resume::approval_text(ArchiveView::Failed(e));
    let k =
        "Plan approved! Plan mode deactivated. Warning: failed to archive plan: "@.len() as int;
    assert(t.subrange(k, k + e.len()) =~= e);
    assert(text::occurs_at(t, e, k));
}

/// What a command of the user wrote is shown whole: its output, then what it
/// wrote to the error stream, then its exit code, unless that is zero.
pub proof fn law_commands_are_shown(out: Seq<char>, err: Seq<char>, exit_code: Option<i32>)
    requires
        out.len() > 0 ==> !text::is_space(out.last()),
        err.len() > 0 ==> !text::is_space(err.last()),
    ensures
        ({
            let s = shell_exec::command_report(out, err, exit_code);
            let body = if err.len() == 0 {
                out
            } else if out.len() == 0 {
                err
            } else {
                out + seq!['\n'] + err
            };
            let bad = exit_code is Some && exit_code->0 != 0;
            &&& body.len() > 0 && !bad ==> s == body
            &&& body.len() > 0 && bad ==> s == body + "\n\n[exit code: "@ + text::signed_decimal(
                exit_code->0 as int,
            ) + "]"@
            &&& body.len() == 0 && bad ==> text::contains_text(
                s,
                text::signed_decimal(exit_code->0 as int),
            )
        }),
{
    text::lemma_end_of_bare(out);
    text::lemma_end_of_bare(err);
    if exit_code is Some {
        let d = text::signed_decimal(exit_code->0 as int);
        let s = "(exit code: "@ + d + ", no output)"@;
        let n = "(exit code: "@.len() as int;
        assert(s.subrange(n, n + d.len()) =~= d);
        assert(text::occurs_at(s, d, n));
    }
}

// ── Files of the program ────────────────────────────────────────────────

/// A skill is a file whose name ends in `.md` with something before it.
pub proof fn law_skill_files(name: Seq<char>, stem: Seq<char>)
    ensures
        stem.len() > 0 ==> app::is_markdown(stem + seq!['.', 'm', 'd']),
        name.len() < 4 || name.skip(name.len() - 3) != seq!['.', 'm', 'd'] ==> !app::is_markdown(
            name,
        ),
{
    reveal_strlit(".md");
    assert(".md"@ =~= seq!['.', 'm', 'd']);
    let s = stem + seq!['.', 'm', 'd'];
    assert(s.subrange(s.len() - 3, s.len() as int) =~= ".md"@);
    if name.len() >= 4 {
        assert(name.subrange(name.len() - 3, name.len() as int) =~= name.skip(name.len() - 3));
    }
}

/// A path under a directory has one slash between the two.
pub proof fn law_paths(root: Seq<char>, path: Seq<char>)
    ensures
        app::under(root.push('/'), path) == root + seq!['/'] + path,
        root.len() > 0 && root.last() != '/' ==> app::under(root, path) == root + seq!['/'] + path,
        app::under(Seq::empty(), path) == path,
{
    reveal_strlit("/");
    assert("/"@ =~= seq!['/']);
    assert(root.push('/') + path =~= root + seq!['/'] + path);
    assert(Seq::<char>::empty() + path =~= path);
}

/// The agent has each of its tools and each of its hooks once.
pub proof fn law_agent_is_complete(name: Seq<char>, h: app::HookKind, i: int, j: int)
    ensures
        name == "task"@ ==> app::tool_table().contains(name),
        app::hook_table().contains(h),
        0 <= i < j < app::hook_table().len() ==> app::hook_table()[i] != app::hook_table()[j],
        name == "read"@ || name == "ls"@ || name == "glob"@ || name == "grep"@ || name
            == "calculator"@ ==> app::subagent_table().contains(name),
{
    assert(app::tool_table()[8] == "task"@);
    let t = app::hook_table();
    assert(t[0] is SystemPrompt && t[1] is PlanMode && t[2] is Observability && t[3] is Persistence
        && t[4] is TodoList && t[5] is Skill && t[6] is Profile && t[7] is MacroCompact && t[8]
        is MicroCompact && t[9] is Sandbox);
    let s = app::subagent_table();
    assert(s[0] == "read"@ && s[1] == "ls"@ && s[2] == "glob"@ && s[3] == "grep"@ && s[4]
        == "calculator"@);
}

/// A skill is seeded exactly where there is none yet.
pub proof fn law_seeding(names: Vec<String>, i: int)
    ensures
        app::seeds(app::SkillsDir::Missing),
        app::seeds(app::SkillsDir::Unreadable),
        names@.len() == 0 ==> app::seeds(app::SkillsDir::Listed(names)),
        0 <= i < names@.len() && app::is_markdown(names@[i]@) ==> !app::seeds(
            app::SkillsDir::Listed(names),
        ),
{
    if 0 <= i < names@.len() {
        assert(text::texts(names@)[i] == names@[i]@);
    }
}

/// An event of a run touches the messages, the state of the run, the selection,
/// the highlight among options and the view, and nothing else.
pub proof fn law_events_leave_the_rest(a: AppView, e: EventView, now: Seq<char>, now_ms: u64)
    ensures
        ({
            let b = applied(a, e, now, now_ms);
            &&& b == (AppView {
                messages: b.messages,
                streaming: b.streaming,
                run_started_at: b.run_started_at,
                selection: b.selection,
                intervene_selection: b.intervene_selection,
                scroll_offset: b.scroll_offset,
                ..a
            })
            &&& !(e is RunStarted) && !(e is RunCompleted) && !(e is Done) ==> b.streaming
                == a.streaming
            &&& !(e is InterventionRequired) ==> b.intervene_selection == a.intervene_selection
            &&& b.selection == a.selection || b.selection is None
        }),
{
}

} // verus!
