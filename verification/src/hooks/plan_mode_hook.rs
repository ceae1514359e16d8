//! Plan mode: a read-only mode for research and planning. The model is told
//! of it, and tools that change anything are refused, but for writes to the
//! plan file.

use vstd::prelude::*;
use crate::hooks::{self, refuse, Rejection, RejectionView};
use crate::json::{self, JsonObject};
use crate::memory::{self, insert_record, remove_marked, Message, RecordView, Role, ToolCallRef};
use crate::text;

verus! {

/// How the message that tells the model of plan mode begins.
pub const PLAN_MODE_MARKER: &'static str = "[PLAN_MODE]";

/// Whether plan mode is on.
#[derive(Clone, Copy, Debug, PartialEq, Eq, Structural)]
pub struct PlanModeState {
    pub active: bool,
}

impl Default for PlanModeState {
    fn default() -> (r: PlanModeState)
        ensures
            !r.active,
    {
        PlanModeState { active: false }
    }
}

/// Enforces plan mode.
pub struct PlanModeHook {
    /// The plan file, as a canonical path.
    pub plan_file_path: String,
    /// What the model is told, with `{plan_file_path}` for the plan file.
    pub prompt: String,
}

/// Whether a tool is allowed in plan mode whatever its arguments are.
pub open spec fn is_read_only(name: Seq<char>) -> bool {
    ||| name == "read"@
    ||| name == "ls"@
    ||| name == "glob"@
    ||| name == "grep"@
    ||| name == "calculator"@
    ||| name == "ask_user_question"@
    ||| name == "todo"@
    ||| name == "task"@
    ||| name == "subagent"@
    ||| name == "enter_plan_mode"@
    ||| name == "exit_plan_mode"@
}

/// What stands against a tool call in plan mode.
pub open spec fn plan_verdict(
    name: Seq<char>,
    writes_plan: bool,
    plan_file: Seq<char>,
) -> Option<RejectionView> {
    if is_read_only(name) {
        None
    } else if name == "write"@ {
        if writes_plan {
            None
        } else {
            hooks::refused(
                name,
                "Write is only allowed to the plan file in plan mode: "@ + plan_file,
            )
        }
    } else if name == "edit"@ {
        hooks::refused(
            name,
            "Edit is blocked in plan mode. Use write to update the plan file instead."@,
        )
    } else if name == "shell"@ {
        hooks::refused(name, "Shell is blocked in plan mode (read-only)."@)
    } else {
        hooks::refused(name, "Tool '"@ + name + "' is not allowed in plan mode."@)
    }
}

/// The file that the arguments of a call name; `None` where they name none.
pub open spec fn target(fields: Option<Seq<(Seq<char>, json::FieldView)>>) -> Option<Seq<char>> {
    match fields {
        Some(f) => json::text_field(f, "file_path"@),
        None => None,
    }
}

/// What stands against a tool call, where its file has the path `canonical`.
pub open spec fn verdict(
    hook: PlanModeHook,
    state: PlanModeState,
    call: memory::CallView,
    canonical: Option<Seq<char>>,
) -> Option<RejectionView> {
    if state.active {
        plan_verdict(
            call.name,
            target(json::json_fields(call.arguments)) is Some && canonical == Some(
                hook.plan_file_path@,
            ),
            hook.plan_file_path@,
        )
    } else {
        None
    }
}

/// The message that tells the model of plan mode.
pub open spec fn plan_message(prompt: Seq<char>, plan_file: Seq<char>) -> RecordView {
    memory::record(
        Role::System,
        PLAN_MODE_MARKER@ + "\n\n"@ + text::replaced(prompt, "{plan_file_path}"@, plan_file),
    )
}

/// The conversation with one message of plan mode in front where it is on,
/// and without any where it is not.
pub open spec fn prompted(
    v: Seq<RecordView>,
    active: bool,
    prompt: Seq<char>,
    plan_file: Seq<char>,
) -> Seq<RecordView> {
    let rest = memory::without_marked(v, PLAN_MODE_MARKER@);
    if active {
        rest.insert(0, plan_message(prompt, plan_file))
    } else {
        rest
    }
}

fn is_allowed(name: &str) -> (r: bool)
    ensures
        r == is_read_only(name@),
{
    text::same_text(name, "read") || text::same_text(name, "ls") || text::same_text(name, "glob")
        || text::same_text(name, "grep") || text::same_text(name, "calculator")
        || text::same_text(name, "ask_user_question") || text::same_text(name, "todo")
        || text::same_text(name, "task") || text::same_text(name, "subagent")
        || text::same_text(name, "enter_plan_mode") || text::same_text(name, "exit_plan_mode")
}

impl PlanModeHook {
    /// A hook for a plan file, given as a canonical path.
    pub fn new(plan_file_path: String, prompt: String) -> (r: PlanModeHook)
        ensures
            r.plan_file_path@ == plan_file_path@,
            r.prompt@ == prompt@,
    {
        PlanModeHook { plan_file_path, prompt }
    }

    /// The file that a call names in its arguments, for the program to find
    /// its canonical path.
    pub fn write_target(&self, call: &ToolCallRef) -> (r: Option<String>)
        ensures
            text::opt_text(r) == target(json::json_fields(call@.arguments)),
    {
        match JsonObject::parse(call.arguments.as_str()) {
            Some(object) => object.get_text("file_path"),
            None => None,
        }
    }

    /// Whether a call names the plan file, where the file that it names has
    /// the path `canonical`.
    pub fn is_plan_file(&self, call: &ToolCallRef, canonical: &Option<String>) -> (r: bool)
        ensures
            r == (target(json::json_fields(call@.arguments)) is Some && text::opt_text(*canonical)
                == Some(self.plan_file_path@)),
    {
        if self.write_target(call).is_none() {
            return false;
        }
        match canonical {
            Some(path) => text::same_text(path.as_str(), self.plan_file_path.as_str()),
            None => false,
        }
    }

    /// Whether a tool call of the given name may go ahead in plan mode.
    pub fn decide(&self, name: &str, writes_plan: bool) -> (r: Result<(), Rejection>)
        ensures
            hooks::gate(r) == plan_verdict(name@, writes_plan, self.plan_file_path@),
    {
        if is_allowed(name) {
            return Ok(());
        }
        if text::same_text(name, "write") {
            if writes_plan {
                return Ok(());
            }
            return refuse(
                name,
                text::cat2(
                    "Write is only allowed to the plan file in plan mode: ",
                    self.plan_file_path.as_str(),
                ),
            );
        }
        if text::same_text(name, "edit") {
            return refuse(
                name,
                "Edit is blocked in plan mode. Use write to update the plan file instead.".to_owned(),
            );
        }
        if text::same_text(name, "shell") {
            return refuse(name, "Shell is blocked in plan mode (read-only).".to_owned());
        }
        refuse(name, text::cat3("Tool '", name, "' is not allowed in plan mode."))
    }

    /// Whether a tool call may go ahead. `canonical` is the path of the file
    /// that the call names.
    pub fn before_tool_call(
        &self,
        state: PlanModeState,
        call: &ToolCallRef,
        canonical: &Option<String>,
    ) -> (r: Result<(), Rejection>)
        ensures
            hooks::gate(r) == verdict(*self, state, call@, text::opt_text(*canonical)),
    {
        if !state.active {
            return Ok(());
        }
        self.decide(call.name.as_str(), self.is_plan_file(call, canonical))
    }

    /// Tells the model of plan mode, or no longer, before it is called.
    pub fn on_llm_start(&self, state: PlanModeState, messages: &mut Vec<Message>)
        ensures
            memory::records(final(messages)@) == prompted(
                memory::records(old(messages)@),
                state.active,
                self.prompt@,
                self.plan_file_path@,
            ),
    {
        remove_marked(messages, PLAN_MODE_MARKER);
        if state.active {
            proof {
                reveal_strlit("{plan_file_path}");
            }
            let prompt = text::replace(
                self.prompt.as_str(),
                "{plan_file_path}",
                self.plan_file_path.as_str(),
            );
            let content = text::cat3(PLAN_MODE_MARKER, "\n\n", prompt.as_str());
            insert_record(messages, 0, Message::new(Role::System, content));
        }
    }
}

// ── Laws ────────────────────────────────────────────────────────────────

/// Plan mode is read-only: what goes ahead in it only reads, or writes the
/// plan file. Above all, nothing is edited, and no shell runs.
pub proof fn law_plan_mode_is_read_only(name: Seq<char>, writes_plan: bool, plan_file: Seq<char>)
    ensures
        plan_verdict(name, writes_plan, plan_file) is None <==> is_read_only(name) || (name
            == "write"@ && writes_plan),
        plan_verdict("edit"@, writes_plan, plan_file) is Some,
        plan_verdict("shell"@, writes_plan, plan_file) is Some,
{
    reveal_strlit("read");
    reveal_strlit("ls");
    reveal_strlit("glob");
    reveal_strlit("grep");
    reveal_strlit("calculator");
    reveal_strlit("ask_user_question");
    reveal_strlit("todo");
    reveal_strlit("task");
    reveal_strlit("subagent");
    reveal_strlit("enter_plan_mode");
    reveal_strlit("exit_plan_mode");
    reveal_strlit("write");
    reveal_strlit("edit");
    reveal_strlit("shell");
    assert("edit"@[0] == 'e');
    assert("shell"@[0] == 's');
    assert("write"@[0] == 'w');
    assert("glob"@[0] == 'g');
    assert("grep"@[0] == 'g');
    assert("todo"@[0] == 't');
    assert("task"@[0] == 't');
    assert("read"@[0] == 'r');
}

/// A refusal names the tool that was refused.
pub proof fn law_refusals_name_the_tool(name: Seq<char>, writes_plan: bool, plan_file: Seq<char>)
    ensures
        plan_verdict(name, writes_plan, plan_file) matches Some(r) ==> r.name == name,
{
}

proof fn lemma_marked(prompt: Seq<char>, plan_file: Seq<char>)
    ensures
        memory::is_marked(plan_message(prompt, plan_file), PLAN_MODE_MARKER@),
{
    let m = plan_message(prompt, plan_file);
    assert(m.content.subrange(0, PLAN_MODE_MARKER@.len() as int) =~= PLAN_MODE_MARKER@);
}

/// Exactly one message tells the model of plan mode while it is on, and none
/// while it is off; the other messages are kept, in order.
pub proof fn law_one_plan_message(
    v: Seq<RecordView>,
    active: bool,
    prompt: Seq<char>,
    plan_file: Seq<char>,
)
    ensures
        ({
            let w = prompted(v, active, prompt, plan_file);
            let rest = memory::without_marked(v, PLAN_MODE_MARKER@);
            &&& memory::without_marked(w, PLAN_MODE_MARKER@) == rest
            &&& active ==> w.len() == rest.len() + 1 && memory::is_marked(w[0], PLAN_MODE_MARKER@)
            &&& !active ==> w == rest
        }),
{
    let rest = memory::without_marked(v, PLAN_MODE_MARKER@);
    lemma_marked(prompt, plan_file);
    memory::law_marked_come_and_go(rest, 0, plan_message(prompt, plan_file), PLAN_MODE_MARKER@);
    assert forall|i: int| 0 <= i < rest.len() implies !memory::is_marked(
        #[trigger] rest[i],
        PLAN_MODE_MARKER@,
    ) by {
        memory::law_marked_are_gone(v, PLAN_MODE_MARKER@, i);
    }
    memory::law_unmarked_are_kept(rest, PLAN_MODE_MARKER@);
}

/// Telling the model again changes nothing: no message piles up.
pub proof fn law_prompting_again_changes_nothing(
    v: Seq<RecordView>,
    active: bool,
    prompt: Seq<char>,
    plan_file: Seq<char>,
)
    ensures
        prompted(prompted(v, active, prompt, plan_file), active, prompt, plan_file) == prompted(
            v,
            active,
            prompt,
            plan_file,
        ),
{
    law_one_plan_message(v, active, prompt, plan_file);
}

proof fn lemma_replacement_stands(s: Seq<char>, p: Seq<char>, r: Seq<char>)
    requires
        p.len() > 0,
        text::contains_text(s, p),
    ensures
        text::contains_text(text::replaced(s, p, r), r),
    decreases s.len(),
{
    let out = text::replaced(s, p, r);
    let at = choose|i: int| text::occurs_at(s, p, i);
    if text::occurs_at(s, p, 0) {
        assert(out.subrange(0, r.len() as int) =~= r);
        assert(text::occurs_at(out, r, 0));
    } else {
        let rest = s.skip(1);
        assert(rest.subrange(at - 1, at - 1 + p.len()) =~= s.subrange(at, at + p.len()));
        assert(text::occurs_at(rest, p, at - 1));
        lemma_replacement_stands(rest, p, r);
        let more = text::replaced(rest, p, r);
        let k = choose|i: int| text::occurs_at(more, r, i);
        assert(out.subrange(k + 1, k + 1 + r.len()) =~= more.subrange(k, k + r.len()));
        assert(text::occurs_at(out, r, k + 1));
    }
}

/// While plan mode is on, the first message names the plan file, where the
/// prompt has a place for it.
pub proof fn law_plan_message_names_the_file(
    v: Seq<RecordView>,
    prompt: Seq<char>,
    plan_file: Seq<char>,
)
    requires
        text::contains_text(prompt, "{plan_file_path}"@),
    ensures
        prompted(v, true, prompt, plan_file)[0].role == Role::System,
        text::begins_with(prompted(v, true, prompt, plan_file)[0].content, PLAN_MODE_MARKER@),
        text::contains_text(prompted(v, true, prompt, plan_file)[0].content, plan_file),
{
    reveal_strlit("{plan_file_path}");
    let head = PLAN_MODE_MARKER@ + "\n\n"@;
    let body = text::replaced(prompt, "{plan_file_path}"@, plan_file);
    let content = head + body;
    lemma_replacement_stands(prompt, "{plan_file_path}"@, plan_file);
    let k = choose|i: int| text::occurs_at(body, plan_file, i);
    let at = head.len() + k;
    assert(content.subrange(at, at + plan_file.len()) =~= body.subrange(k, k + plan_file.len()));
    assert(text::occurs_at(content, plan_file, at));
    assert(content.subrange(0, PLAN_MODE_MARKER@.len() as int) =~= PLAN_MODE_MARKER@);
}

/// In plan mode the tools that read, plan and ask run, writing to the plan
/// file does, and nothing else: neither edits nor shells, nor other tools.
pub proof fn law_what_runs_in_plan_mode(name: Seq<char>, writes_plan: bool, plan_file: Seq<char>)
    ensures
        plan_verdict("read"@, writes_plan, plan_file) is None,
        plan_verdict("ls"@, writes_plan, plan_file) is None,
        plan_verdict("glob"@, writes_plan, plan_file) is None,
        plan_verdict("grep"@, writes_plan, plan_file) is None,
        plan_verdict("calculator"@, writes_plan, plan_file) is None,
        plan_verdict("ask_user_question"@, writes_plan, plan_file) is None,
        plan_verdict("todo"@, writes_plan, plan_file) is None,
        plan_verdict("task"@, writes_plan, plan_file) is None,
        plan_verdict("subagent"@, writes_plan, plan_file) is None,
        plan_verdict("enter_plan_mode"@, writes_plan, plan_file) is None,
        plan_verdict("exit_plan_mode"@, writes_plan, plan_file) is None,
        plan_verdict("write"@, true, plan_file) is None,
        plan_verdict("write"@, false, plan_file) is Some,
        plan_verdict("edit"@, writes_plan, plan_file) is Some,
        plan_verdict("shell"@, writes_plan, plan_file) is Some,
        name != "read"@ && name != "ls"@ && name != "glob"@ && name != "grep"@ && name != "calculator"@ && name != "ask_user_question"@ && name != "todo"@ && name != "task"@ && name != "subagent"@ && name != "enter_plan_mode"@ && name != "exit_plan_mode"@ && name != "write"@ ==> plan_verdict(name, writes_plan, plan_file) is Some,
{
    law_plan_mode_is_read_only(name, writes_plan, plan_file);
    reveal_strlit("read");
    reveal_strlit("ls");
    reveal_strlit("glob");
    reveal_strlit("grep");
    reveal_strlit("calculator");
    reveal_strlit("ask_user_question");
    reveal_strlit("todo");
    reveal_strlit("task");
    reveal_strlit("subagent");
    reveal_strlit("enter_plan_mode");
    reveal_strlit("exit_plan_mode");
    reveal_strlit("write");
    reveal_strlit("edit");
    reveal_strlit("shell");
    assert("write"@[0] == 'w' && "write"@.len() == 5);
    assert("edit"@[0] == 'e' && "edit"@.len() == 4);
    assert("shell"@[0] == 's' && "shell"@.len() == 5);
    assert("enter_plan_mode"@.len() == 15);
    assert("exit_plan_mode"@.len() == 14);
    assert("subagent"@.len() == 8);
    assert("read"@[0] == 'r');
}

/// While plan mode is off, every call goes ahead; while it is on, a call of
/// `write` does exactly where it names a file and the file is the plan file.
pub proof fn law_plan_mode_guards_writes(
    hook: PlanModeHook,
    state: PlanModeState,
    call: memory::CallView,
    canonical: Option<Seq<char>>,
)
    requires
        call.name == "write"@,
    ensures
        !state.active ==> verdict(hook, state, call, canonical) is None,
        state.active ==> (verdict(hook, state, call, canonical) is None <==> target(
            json::json_fields(call.arguments),
        ) is Some && canonical == Some(hook.plan_file_path@)),
{
    law_what_runs_in_plan_mode(call.name, true, hook.plan_file_path@);
}

/// While plan mode is off, it stands against no call.
pub proof fn law_plan_mode_is_off(
    hook: PlanModeHook,
    call: memory::CallView,
    canonical: Option<Seq<char>>,
)
    ensures
        verdict(hook, PlanModeState { active: false }, call, canonical) is None,
{
}

} // verus!
