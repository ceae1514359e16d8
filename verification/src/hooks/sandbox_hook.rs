//! The sandbox around tool calls: quotas for all of them, and for shell
//! commands the policy, the approval of the user and the audit trail.

use vstd::prelude::*;
use crate::hooks::shell_approval::{self, parse_shell_command};
use crate::hooks::{self, Rejection, RejectionView, RunOutcome};
use crate::memory::{self, ToolCallRef};
use crate::sandbox::audit_logger::{self, AuditEntry, AuditLogger, EntryView};
use crate::sandbox::resource_tracker::{self, Refusal, ResourceTracker, SessionStats};
use crate::sandbox::shell_filter::{self, CommandVerdict, FilterView, ShellFilter, VerdictView};
use crate::text;
use crate::tui::agent_event::InterventionRequest;
use crate::tui::messages::{self, truncate_for_display, InterventionResponse, ResponseView};

verus! {

/// How many bytes of an outcome are recorded.
pub const OUTCOME_BYTES: usize = 100;

/// The sandbox.
pub struct SandboxHook {
    shell_filter: ShellFilter,
    resource_tracker: ResourceTracker,
    audit_logger: AuditLogger,
}

/// What the sandbox holds.
pub struct SandboxView {
    pub filter: FilterView,
    pub sessions: Map<Seq<char>, SessionStats>,
    pub max_ops: nat,
    pub max_shells: nat,
    pub audited: bool,
    pub trail: Seq<EntryView>,
}

impl View for SandboxHook {
    type V = SandboxView;

    closed spec fn view(&self) -> SandboxView {
        SandboxView {
            filter: self.shell_filter@,
            sessions: self.resource_tracker@,
            max_ops: self.resource_tracker.max_ops(),
            max_shells: self.resource_tracker.max_shells(),
            audited: self.audit_logger.is_enabled(),
            trail: self.audit_logger@,
        }
    }
}

/// What is decided of a tool call.
#[derive(Clone, Debug)]
pub enum Decision {
    Allowed,
    Refused(Rejection),
    /// The user is to be asked about this command.
    AskUser(String),
}

/// What a decision holds.
pub enum DecisionView {
    Allowed,
    Refused(RejectionView),
    AskUser(Seq<char>),
}

impl View for Decision {
    type V = DecisionView;

    open spec fn view(&self) -> DecisionView {
        match self {
            Decision::Allowed => DecisionView::Allowed,
            Decision::Refused(r) => DecisionView::Refused(r@),
            Decision::AskUser(s) => DecisionView::AskUser(s@),
        }
    }
}

/// What an optional record holds.
pub open spec fn record_view(e: Option<AuditEntry>) -> Option<EntryView> {
    match e {
        Some(e) => Some(e@),
        None => None,
    }
}

// ── What each step does ─────────────────────────────────────────────────

/// The sandbox with a record in the trail, where it is audited.
pub open spec fn logged(h: SandboxView, e: EntryView) -> SandboxView {
    if h.audited {
        SandboxView { trail: audit_logger::ring_push(h.trail, e), ..h }
    } else {
        h
    }
}

/// The record that the program appends to the file.
pub open spec fn written(h: SandboxView, e: EntryView) -> Option<EntryView> {
    if h.audited {
        Some(e)
    } else {
        None
    }
}

/// The usage of a session in the sandbox.
pub open spec fn usage_of(h: SandboxView, session: Seq<char>) -> SessionStats {
    resource_tracker::used(h.sessions, session)
}

/// The sandbox with another usage of a session.
pub open spec fn with_usage(h: SandboxView, session: Seq<char>, s: SessionStats) -> SandboxView {
    SandboxView { sessions: h.sessions.insert(session, s), ..h }
}

/// A record on a shell command.
pub open spec fn shell_entry(
    session: Seq<char>,
    command: Seq<char>,
    verdict: Seq<char>,
    outcome: Seq<char>,
    now: Seq<char>,
) -> EntryView {
    EntryView {
        timestamp: now,
        session_id: session,
        tool: "shell"@,
        command,
        verdict,
        outcome,
    }
}

/// What the verdict on a shell command does, once the quotas allow it.
pub open spec fn on_command(
    h: SandboxView,
    session: Seq<char>,
    command: Seq<char>,
    verdict: VerdictView,
    now: Seq<char>,
) -> (SandboxView, DecisionView, Option<EntryView>) {
    match verdict {
        VerdictView::Blocked { reason } => {
            let e = shell_entry(session, command, "blocked"@, reason, now);
            (
                with_usage(
                    logged(h, e),
                    session,
                    resource_tracker::withdrawn(usage_of(h, session), "shell"@),
                ),
                DecisionView::Refused(
                    RejectionView { name: "shell"@, reason: "Blocked by sandbox: "@ + reason },
                ),
                written(h, e),
            )
        },
        VerdictView::AutoApproved => {
            let e = shell_entry(session, command, "auto_approved"@, "allowed"@, now);
            (logged(h, e), DecisionView::Allowed, written(h, e))
        },
        VerdictView::RequiresApproval => (h, DecisionView::AskUser(command), None),
    }
}

/// The text of a quota that stands against a call.
pub open spec fn quota_text(h: SandboxView, r: Refusal) -> Seq<char> {
    match r {
        Refusal::TooManyOperations => "session quota exceeded: "@ + text::decimal(h.max_ops)
            + " total operations"@,
        _ => "too many concurrent shells (max "@ + text::decimal(h.max_shells) + ")"@,
    }
}

/// What is decided of a tool call: the quotas come first, then the policy
/// for shell commands.
pub open spec fn on_call(
    h: SandboxView,
    session: Seq<char>,
    call: memory::CallView,
    now: Seq<char>,
) -> (SandboxView, DecisionView, Option<EntryView>) {
    let s = usage_of(h, session);
    let refusal = resource_tracker::refusal(s, call.name, h.max_ops, h.max_shells);
    if refusal !is Nothing {
        (
            with_usage(h, session, s),
            DecisionView::Refused(
                RejectionView { name: call.name, reason: quota_text(h, refusal) },
            ),
            None,
        )
    } else {
        let g = with_usage(h, session, resource_tracker::admitted(s, call.name));
        if call.name == "shell"@ {
            let command = shell_approval::shell_command(call.arguments);
            on_command(g, session, command, shell_filter::classified(h.filter, command), now)
        } else {
            (g, DecisionView::Allowed, None)
        }
    }
}

/// Whether the user approved: the first option, or an answer of their own.
/// No answer counts as a no.
pub open spec fn is_approval(reply: Option<ResponseView>) -> bool {
    reply matches Some(r) && (r.chosen == Some(0usize) || r.chosen == Some(2usize))
}

/// What the user's answer on a command does.
pub open spec fn on_reply(
    h: SandboxView,
    session: Seq<char>,
    command: Seq<char>,
    reply: Option<ResponseView>,
    now: Seq<char>,
) -> (SandboxView, Option<RejectionView>, Option<EntryView>) {
    if is_approval(reply) {
        let e = shell_entry(session, command, "user_approved"@, "allowed"@, now);
        (logged(h, e), None, written(h, e))
    } else {
        let e = shell_entry(session, command, "user_denied"@, "denied"@, now);
        let g = if h.sessions.contains_key(session) {
            with_usage(
                h,
                session,
                resource_tracker::withdrawn(usage_of(h, session), "shell"@),
            )
        } else {
            h
        };
        (
            logged(g, e),
            hooks::refused("shell"@, "User denied shell command execution"@),
            written(g, e),
        )
    }
}

/// The sandbox once a call completed.
pub open spec fn recorded(h: SandboxView, session: Seq<char>, tool: Seq<char>) -> SandboxView {
    if h.sessions.contains_key(session) {
        with_usage(h, session, resource_tracker::completed(usage_of(h, session), tool))
    } else {
        h
    }
}

/// A record on a call that ran.
pub open spec fn call_entry(
    session: Seq<char>,
    call: memory::CallView,
    verdict: Seq<char>,
    outcome: Seq<char>,
    now: Seq<char>,
) -> EntryView {
    EntryView {
        timestamp: now,
        session_id: session,
        tool: call.name,
        command: call.arguments,
        verdict,
        outcome: messages::cut_to_bytes(outcome, OUTCOME_BYTES as nat),
    }
}

/// What a call that succeeded does. Shell commands are in the trail already.
pub open spec fn on_success(
    h: SandboxView,
    session: Seq<char>,
    call: memory::CallView,
    observation: Seq<char>,
    now: Seq<char>,
) -> (SandboxView, Option<EntryView>) {
    let g = recorded(h, session, call.name);
    if call.name == "shell"@ {
        (g, None)
    } else {
        let e = call_entry(session, call, "allowed"@, observation, now);
        (logged(g, e), written(g, e))
    }
}

/// What a call that failed does.
pub open spec fn on_failure(
    h: SandboxView,
    session: Seq<char>,
    call: memory::CallView,
    error: Seq<char>,
    now: Seq<char>,
) -> (SandboxView, Option<EntryView>) {
    let g = recorded(h, session, call.name);
    let e = call_entry(session, call, "tool_failed"@, error, now);
    (logged(g, e), written(g, e))
}

/// How the end of a run is recorded.
pub open spec fn outcome_word(outcome: RunOutcome) -> Seq<char> {
    match outcome {
        RunOutcome::Success { .. } => "success"@,
        RunOutcome::Error { .. } => "error"@,
        RunOutcome::Cancelled => "cancelled"@,
    }
}

/// The record on the end of a run.
pub open spec fn finish_entry(session: Seq<char>, outcome: RunOutcome, now: Seq<char>) -> EntryView {
    EntryView {
        timestamp: now,
        session_id: session,
        tool: "__run_finish__"@,
        command: Seq::empty(),
        verdict: outcome_word(outcome),
        outcome: "run outcome: "@ + outcome_word(outcome),
    }
}

/// Whether a shell of the session is running, where the call is a shell
/// call: each call that ends was let through before.
pub open spec fn was_let_through(h: SandboxView, session: Seq<char>, tool: Seq<char>) -> bool {
    h.sessions.contains_key(session) && tool == "shell"@ ==> h.sessions[session].active_shells > 0
}

// ── The sandbox ─────────────────────────────────────────────────────────

fn make_entry(
    now: &str,
    session: &str,
    tool: &str,
    command: &str,
    verdict: &str,
    outcome: &str,
) -> (r: AuditEntry)
    ensures
        r@ == (EntryView {
            timestamp: now@,
            session_id: session@,
            tool: tool@,
            command: command@,
            verdict: verdict@,
            outcome: outcome@,
        }),
{
    AuditEntry {
        timestamp: now.to_owned(),
        session_id: session.to_owned(),
        tool: tool.to_owned(),
        command: command.to_owned(),
        verdict: verdict.to_owned(),
        outcome: outcome.to_owned(),
    }
}

impl SandboxHook {
    /// The quotas hold, and the trail is within its bound.
    pub closed spec fn wf(&self) -> bool {
        self.resource_tracker.wf() && self.audit_logger.wf()
    }

    /// A sandbox out of its parts.
    pub fn new(
        shell_filter: ShellFilter,
        resource_tracker: ResourceTracker,
        audit_logger: AuditLogger,
    ) -> (r: SandboxHook)
        requires
            resource_tracker.wf(),
            audit_logger.wf(),
        ensures
            r.wf(),
            r@ == (SandboxView {
                filter: shell_filter@,
                sessions: resource_tracker@,
                max_ops: resource_tracker.max_ops(),
                max_shells: resource_tracker.max_shells(),
                audited: audit_logger.is_enabled(),
                trail: audit_logger@,
            }),
    {
        SandboxHook { shell_filter, resource_tracker, audit_logger }
    }

    fn log(&mut self, e: AuditEntry) -> (r: Option<AuditEntry>)
        requires
            old(self).wf(),
        ensures
            final(self).wf(),
            final(self)@ == logged(old(self)@, e@),
            record_view(r) == written(old(self)@, e@),
    {
        self.audit_logger.log(e)
    }

    fn check(&mut self, session: &str, tool: &str) -> (r: Result<(), String>)
        requires
            old(self).wf(),
        ensures
            final(self).wf(),
            old(self)@.max_shells <= usize::MAX,
            ({
                let h = old(self)@;
                let s = usage_of(h, session@);
                let refusal = resource_tracker::refusal(s, tool@, h.max_ops, h.max_shells);
                match r {
                    Ok(_) => refusal is Nothing && final(self)@ == with_usage(
                        h,
                        session@,
                        resource_tracker::admitted(s, tool@),
                    ),
                    Err(e) => refusal !is Nothing && e@ == quota_text(h, refusal) && final(self)@
                        == with_usage(h, session@, s),
                }
            }),
    {
        proof {
            self.resource_tracker.lemma_limits();
        }
        self.resource_tracker.check(session, tool)
    }

    fn withdraw(&mut self, session: &str)
        requires
            old(self).wf(),
            was_let_through(old(self)@, session@, "shell"@),
        ensures
            final(self).wf(),
            final(self)@ == (if old(self)@.sessions.contains_key(session@) {
                with_usage(
                    old(self)@,
                    session@,
                    resource_tracker::withdrawn(usage_of(old(self)@, session@), "shell"@),
                )
            } else {
                old(self)@
            }),
    {
        self.resource_tracker.cancel(session, "shell");
    }

    fn record(&mut self, session: &str, tool: &str)
        requires
            old(self).wf(),
            was_let_through(old(self)@, session@, tool@),
        ensures
            final(self).wf(),
            final(self)@ == recorded(old(self)@, session@, tool@),
    {
        self.resource_tracker.record(session, tool);
    }

    fn classify(&self, command: &str) -> (r: CommandVerdict)
        ensures
            r@ == shell_filter::classified(self@.filter, command@),
    {
        self.shell_filter.classify(command)
    }

    /// Acts on the verdict on a shell command that the quotas allow.
    pub fn judge(
        &mut self,
        session: &str,
        command: &str,
        verdict: CommandVerdict,
        now: &str,
    ) -> (r: (Decision, Option<AuditEntry>))
        requires
            old(self).wf(),
            old(self)@.sessions.contains_key(session@),
            old(self)@.sessions[session@].active_shells > 0,
        ensures
            final(self).wf(),
            (final(self)@, r.0@, record_view(r.1)) == on_command(
                old(self)@,
                session@,
                command@,
                verdict@,
                now@,
            ),
    {
        match verdict {
            CommandVerdict::Blocked { reason } => {
                let e = make_entry(now, session, "shell", command, "blocked", reason.as_str());
                let written = self.log(e);
                self.withdraw(session);
                let reason = text::cat2("Blocked by sandbox: ", reason.as_str());
                (Decision::Refused(Rejection { name: "shell".to_owned(), reason }), written)
            },
            CommandVerdict::AutoApproved => {
                let e = make_entry(now, session, "shell", command, "auto_approved", "allowed");
                let written = self.log(e);
                (Decision::Allowed, written)
            },
            CommandVerdict::RequiresApproval => (Decision::AskUser(command.to_owned()), None),
        }
    }

    /// Decides a tool call. Returns the record that is to be appended to the
    /// audit file beside the decision.
    pub fn before_tool_call(&mut self, session: &str, call: &ToolCallRef, now: &str) -> (r: (
        Decision,
        Option<AuditEntry>,
    ))
        requires
            old(self).wf(),
        ensures
            final(self).wf(),
            (final(self)@, r.0@, record_view(r.1)) == on_call(
                old(self)@,
                session@,
                call@,
                now@,
            ),
    {
        match self.check(session, call.name.as_str()) {
            Err(reason) => {
                return (Decision::Refused(Rejection { name: call.name.clone(), reason }), None);
            },
            Ok(_) => {},
        }
        if !text::same_text(call.name.as_str(), "shell") {
            return (Decision::Allowed, None);
        }
        let command = parse_shell_command(call.arguments.as_str());
        let verdict = self.classify(command.as_str());
        self.judge(session, command.as_str(), verdict, now)
    }

    /// The question to the user about a command.
    pub fn approval_request(&self, request_id: &str, command: &str) -> (r: InterventionRequest)
        ensures
            r.request_id@ == request_id@,
            r.title@ == "Approve shell command?"@,
            r.description@ == command@,
            text::texts(r.options@) == seq!["Approve"@, "Deny"@, "Other…"@],
    {
        let mut options: Vec<String> = Vec::new();
        text::push_text(&mut options, "Approve".to_owned());
        text::push_text(&mut options, "Deny".to_owned());
        text::push_text(&mut options, "Other…".to_owned());
        assert(text::texts(options@) =~= seq!["Approve"@, "Deny"@, "Other…"@]);
        InterventionRequest {
            request_id: request_id.to_owned(),
            title: "Approve shell command?".to_owned(),
            description: command.to_owned(),
            options,
        }
    }

    /// Acts on the user's answer about a command; `None` where there was no
    /// answer in time.
    pub fn on_approval(
        &mut self,
        session: &str,
        command: &str,
        reply: &Option<InterventionResponse>,
        now: &str,
    ) -> (r: (Result<(), Rejection>, Option<AuditEntry>))
        requires
            old(self).wf(),
            was_let_through(old(self)@, session@, "shell"@),
        ensures
            final(self).wf(),
            (final(self)@, hooks::gate(r.0), record_view(r.1)) == on_reply(
                old(self)@,
                session@,
                command@,
                match *reply {
                    Some(a) => Some(a@),
                    None => None,
                },
                now@,
            ),
    {
        let approved = match reply {
            Some(a) => match a.chosen {
                Some(i) => i == 0 || i == 2,
                None => false,
            },
            None => false,
        };
        if approved {
            let e = make_entry(now, session, "shell", command, "user_approved", "allowed");
            let written = self.log(e);
            return (Ok(()), written);
        }
        self.withdraw(session);
        let e = make_entry(now, session, "shell", command, "user_denied", "denied");
        let written = self.log(e);
        (
            hooks::refuse("shell", "User denied shell command execution".to_owned()),
            written,
        )
    }

    /// Records a call that succeeded.
    pub fn after_tool_call(
        &mut self,
        session: &str,
        call: &ToolCallRef,
        observation: &str,
        now: &str,
    ) -> (r: Option<AuditEntry>)
        requires
            old(self).wf(),
            was_let_through(old(self)@, session@, call@.name),
        ensures
            final(self).wf(),
            (final(self)@, record_view(r)) == on_success(
                old(self)@,
                session@,
                call@,
                observation@,
                now@,
            ),
    {
        self.record(session, call.name.as_str());
        if text::same_text(call.name.as_str(), "shell") {
            return None;
        }
        let outcome = truncate_for_display(observation, OUTCOME_BYTES);
        let e = make_entry(
            now,
            session,
            call.name.as_str(),
            call.arguments.as_str(),
            "allowed",
            outcome.as_str(),
        );
        self.log(e)
    }

    /// Records a call that failed.
    pub fn on_tool_failed(&mut self, session: &str, call: &ToolCallRef, error: &str, now: &str) -> (r:
        Option<AuditEntry>)
        requires
            old(self).wf(),
            was_let_through(old(self)@, session@, call@.name),
        ensures
            final(self).wf(),
            (final(self)@, record_view(r)) == on_failure(
                old(self)@,
                session@,
                call@,
                error@,
                now@,
            ),
    {
        self.record(session, call.name.as_str());
        let outcome = truncate_for_display(error, OUTCOME_BYTES);
        let e = make_entry(
            now,
            session,
            call.name.as_str(),
            call.arguments.as_str(),
            "tool_failed",
            outcome.as_str(),
        );
        self.log(e)
    }

    /// Records the end of a run.
    pub fn on_run_finish(&mut self, session: &str, outcome: &RunOutcome, now: &str) -> (r: Option<
        AuditEntry,
    >)
        requires
            old(self).wf(),
        ensures
            final(self).wf(),
            final(self)@ == logged(old(self)@, finish_entry(session@, *outcome, now@)),
            record_view(r) == written(old(self)@, finish_entry(session@, *outcome, now@)),
    {
        let word = match outcome {
            RunOutcome::Success { .. } => "success",
            RunOutcome::Error { .. } => "error",
            RunOutcome::Cancelled => "cancelled",
        };
        let e = make_entry(
            now,
            session,
            "__run_finish__",
            "",
            word,
            text::cat2("run outcome: ", word).as_str(),
        );
        proof {
            reveal_strlit("");
        }
        assert(e@.command =~= Seq::<char>::empty());
        self.log(e)
    }
}

// ── Laws ────────────────────────────────────────────────────────────────

/// A blocked command never runs and the user is not asked: it is refused at
/// once, the usage is what it was, and the trail shows it.
pub proof fn law_blocked_commands_are_refused(
    h: SandboxView,
    session: Seq<char>,
    call: memory::CallView,
    now: Seq<char>,
)
    requires
        call.name == "shell"@,
        shell_filter::classified(
            h.filter,
            shell_approval::shell_command(call.arguments),
        ) is Blocked,
        h.max_shells <= usize::MAX,
    ensures
        on_call(h, session, call, now).1 is Refused,
        usage_of(on_call(h, session, call, now).0, session) == usage_of(h, session),
{
}

/// A command that the user denied leaves the usage of before the call.
pub proof fn law_denied_commands_leave_no_trace_in_the_quota(
    h: SandboxView,
    session: Seq<char>,
    call: memory::CallView,
    reply: Option<ResponseView>,
    now: Seq<char>,
    later: Seq<char>,
)
    requires
        on_call(h, session, call, now).1 is AskUser,
        !is_approval(reply),
        h.max_shells <= usize::MAX,
    ensures
        ({
            let (g, decision, entry) = on_call(h, session, call, now);
            usage_of(
                on_reply(g, session, decision->AskUser_0, reply, later).0,
                session,
            ) == usage_of(h, session)
        }),
{
}

/// Whatever is decided of a shell command that the quotas allow is in the
/// trail, once the user has answered where they were asked.
pub proof fn law_every_shell_decision_is_recorded(
    h: SandboxView,
    session: Seq<char>,
    call: memory::CallView,
    reply: Option<ResponseView>,
    now: Seq<char>,
    later: Seq<char>,
)
    requires
        h.audited,
        call.name == "shell"@,
        resource_tracker::refusal(
            usage_of(h, session),
            call.name,
            h.max_ops,
            h.max_shells,
        ) is Nothing,
    ensures
        ({
            let (g, decision, entry) = on_call(h, session, call, now);
            let command = shell_approval::shell_command(call.arguments);
            &&& decision !is AskUser ==> entry is Some && entry->0.command == command && g.trail
                == audit_logger::ring_push(h.trail, entry->0)
            &&& decision is AskUser ==> {
                let (k, rejection, written) = on_reply(g, session, command, reply, later);
                written is Some && written->0.command == command && k.trail
                    == audit_logger::ring_push(h.trail, written->0)
            }
        }),
{
}

/// Calls of other tools are never put to the user.
pub proof fn law_only_shell_commands_ask(
    h: SandboxView,
    session: Seq<char>,
    call: memory::CallView,
    now: Seq<char>,
)
    ensures
        on_call(h, session, call, now).1 is AskUser ==> call.name == "shell"@,
{
}

} // verus!
