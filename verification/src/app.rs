//! How the agent is put together: its tools, its hooks, and the files that
//! it works with.

use vstd::prelude::*;
use crate::hooks::plan_mode_hook::PlanModeState;
use crate::sandbox::config::SandboxConfig;
use crate::sandbox::shell_filter::{self, ShellFilter};
use crate::text;
use crate::tools::todo::TodoItem;
use crate::tui::app::ActiveSkill;

verus! {

// ── Files ───────────────────────────────────────────────────────────────

/// The plan that is being written.
pub const PLAN_FILE: &'static str = ".loomis/plan.md";

/// Where approved plans are kept.
pub const PLAN_DIR: &'static str = ".loomis/plan";

/// Where skills are looked for, in the project and in the home directory.
pub const SKILLS_DIR: &'static str = ".loomis/skills";

/// The skill that a new project starts with.
pub const SEED_SKILL: &'static str = "skill-generator.md";

/// Where conversations are kept.
pub const THREADS_DIR: &'static str = ".loomis/threads";

/// The file that names the conversation in use.
pub const CURRENT_THREAD_FILE: &'static str = ".loomis/current";

/// The title of a conversation that is written out.
pub const MARKDOWN_TITLE: &'static str = "Loomis Conversation";

/// Where exported traces go.
pub const TRACES_DIR: &'static str = ".loomis/traces";

/// The profile of the user.
pub const PROFILE_FILE: &'static str = ".loomis/profile.json";

/// The settings of the sandbox.
pub const CONFIG_FILE: &'static str = ".loomis/config.toml";

/// Where the audit trail goes unless the settings say otherwise.
pub const AUDIT_FILE: &'static str = ".loomis/audit.jsonl";

/// Where the sandbox would put the audit trail by itself.
pub const GENERIC_AUDIT_FILE: &'static str = ".agent/audit.jsonl";

/// The model that answers.
pub const DEFAULT_MODEL: &'static str = "deepseek-v4-pro";

/// The model that summarises, and that subagents run on.
pub const DEFAULT_FLASH_MODEL: &'static str = "deepseek-v4-flash";

/// How many steps a run may take.
pub const MAX_STEPS: usize = 50;

/// How often a failed call of the model is tried again.
pub const MAX_RETRIES: usize = 3;

/// Where the audit trail goes: under the project's own directory, unless the
/// settings name another place.
pub fn audit_log_file(configured: &str) -> (r: String)
    ensures
        r@ == (if configured@ == GENERIC_AUDIT_FILE@ {
            AUDIT_FILE@
        } else {
            configured@
        }),
{
    if text::same_text(configured, GENERIC_AUDIT_FILE) {
        AUDIT_FILE.to_owned()
    } else {
        configured.to_owned()
    }
}

/// A setting, or its default where it is not set.
pub fn setting_or(value: Option<String>, default: &str) -> (r: String)
    ensures
        r@ == (match value {
            Some(v) => v@,
            None => default@,
        }),
{
    match value {
        Some(v) => v,
        None => default.to_owned(),
    }
}

/// The home directory; the current one where it is not known. `variable` is
/// the value of `HOME`, or of `USERPROFILE` on Windows.
pub fn dirs_fallback(variable: Option<String>) -> (r: String)
    ensures
        r@ == (match variable {
            Some(v) => v@,
            None => "."@,
        }),
{
    setting_or(variable, ".")
}

// ── The first skill ─────────────────────────────────────────────────────

/// What is found where the skills of a project are.
#[derive(Clone, Debug)]
pub enum SkillsDir {
    /// There is no such directory.
    Missing,
    /// It cannot be listed.
    Unreadable,
    /// The names of its entries.
    Listed(Vec<String>),
}

/// Whether a file's extension is `md`. A name that is only the extension has
/// none.
pub open spec fn is_markdown(name: Seq<char>) -> bool {
    name.len() > 3 && text::finishes_with(name, ".md"@)
}

/// Whether the first skill is written: only where there is no skill yet.
pub open spec fn seeds(dir: SkillsDir) -> bool {
    match dir {
        SkillsDir::Listed(names) => without_skills(text::texts(names@)),
        _ => true,
    }
}

/// Whether none of the names is that of a skill.
pub open spec fn without_skills(names: Seq<Seq<char>>) -> bool {
    forall|i: int| 0 <= i < names.len() ==> !is_markdown(#[trigger] names[i])
}

/// Whether the first skill is written into the directory of skills.
pub fn seed_default_skills(dir: &SkillsDir) -> (r: bool)
    ensures
        r == seeds(*dir),
{
    match dir {
        SkillsDir::Listed(names) => {
            let mut i: usize = 0;
            while i < names.len()
                invariant
                    i <= names@.len(),
                    *dir == SkillsDir::Listed(*names),
                    forall|k: int| 0 <= k < i ==> !is_markdown(#[trigger] text::texts(names@)[k]),
                decreases names@.len() - i,
            {
                let name = names[i].as_str();
                if name.unicode_len() > 3 && text::ends_with(name, ".md") {
                    assert(is_markdown(text::texts(names@)[i as int]));
                    return false;
                }
                i = i + 1;
            }
            true
        },
        _ => true,
    }
}

/// Seeding is done once: where the first skill stands, nothing is written
/// any more.
pub proof fn law_seeding_is_idempotent(names: Vec<String>, i: int)
    requires
        0 <= i < names@.len(),
        names@[i]@ == SEED_SKILL@,
    ensures
        !seeds(SkillsDir::Listed(names)),
{
    reveal_strlit("skill-generator.md");
    reveal_strlit(".md");
    let name = names@[i]@;
    assert(name.subrange(name.len() - 3, name.len() as int) =~= ".md"@);
    assert(is_markdown(text::texts(names@)[i]));
}

// ── Tools ───────────────────────────────────────────────────────────────

/// The tools of the agent, in the order in which they are registered.
pub open spec fn tool_table() -> Seq<Seq<char>> {
    seq![
        "calculator"@,
        "read"@,
        "edit"@,
        "write"@,
        "glob"@,
        "grep"@,
        "ls"@,
        "shell"@,
        "task"@,
        "ask_user_question"@,
        "todo"@,
        "enter_plan_mode"@,
        "exit_plan_mode"@,
        "skill"@,
    ]
}

/// What a subagent may use: it reads, and it reckons.
pub open spec fn subagent_table() -> Seq<Seq<char>> {
    seq!["read"@, "ls"@, "glob"@, "grep"@, "calculator"@]
}

fn registered_names() -> (r: Vec<String>)
    ensures
        text::texts(r@) == tool_table(),
{
    let mut r: Vec<String> = Vec::new();
    text::push_text(&mut r, "calculator".to_owned());
    text::push_text(&mut r, "read".to_owned());
    text::push_text(&mut r, "edit".to_owned());
    text::push_text(&mut r, "write".to_owned());
    text::push_text(&mut r, "glob".to_owned());
    text::push_text(&mut r, "grep".to_owned());
    text::push_text(&mut r, "ls".to_owned());
    text::push_text(&mut r, "shell".to_owned());
    text::push_text(&mut r, "task".to_owned());
    text::push_text(&mut r, "ask_user_question".to_owned());
    text::push_text(&mut r, "todo".to_owned());
    text::push_text(&mut r, "enter_plan_mode".to_owned());
    text::push_text(&mut r, "exit_plan_mode".to_owned());
    text::push_text(&mut r, "skill".to_owned());
    assert(text::texts(r@) =~= tool_table());
    r
}

fn subagent_names() -> (r: Vec<String>)
    ensures
        text::texts(r@) == subagent_table(),
{
    let mut r: Vec<String> = Vec::new();
    text::push_text(&mut r, "read".to_owned());
    text::push_text(&mut r, "ls".to_owned());
    text::push_text(&mut r, "glob".to_owned());
    text::push_text(&mut r, "grep".to_owned());
    text::push_text(&mut r, "calculator".to_owned());
    assert(text::texts(r@) =~= subagent_table());
    r
}

/// A subagent cannot change anything: none of its tools writes, runs
/// commands, or starts another subagent.
pub proof fn law_subagents_only_read(i: int)
    requires
        0 <= i < subagent_table().len(),
    ensures
        tool_table().contains(subagent_table()[i]),
        subagent_table()[i] != "shell"@,
        subagent_table()[i] != "write"@,
        subagent_table()[i] != "edit"@,
        subagent_table()[i] != "task"@,
{
    reveal_strlit("read");
    reveal_strlit("ls");
    reveal_strlit("glob");
    reveal_strlit("grep");
    reveal_strlit("calculator");
    reveal_strlit("shell");
    reveal_strlit("write");
    reveal_strlit("edit");
    reveal_strlit("task");
    let t = tool_table();
    assert(t[1] == "read"@ && t[6] == "ls"@ && t[4] == "glob"@ && t[5] == "grep"@ && t[0]
        == "calculator"@);
    let name = subagent_table()[i];
    assert(name[0] == 'r' || name[0] == 'l' || name[0] == 'g' || name[0] == 'c');
    assert("shell"@[0] == 's' && "write"@[0] == 'w' && "edit"@[0] == 'e' && "task"@[0] == 't');
}

// ── Hooks ───────────────────────────────────────────────────────────────

/// The hooks of the agent.
#[derive(Clone, Copy, Debug, PartialEq, Eq, Structural)]
pub enum HookKind {
    SystemPrompt,
    PlanMode,
    Observability,
    Persistence,
    TodoList,
    Skill,
    Profile,
    MacroCompact,
    MicroCompact,
    Sandbox,
}

/// The hooks in the order in which they run.
pub open spec fn hook_table() -> Seq<HookKind> {
    seq![
        HookKind::SystemPrompt,
        HookKind::PlanMode,
        HookKind::Observability,
        HookKind::Persistence,
        HookKind::TodoList,
        HookKind::Skill,
        HookKind::Profile,
        HookKind::MacroCompact,
        HookKind::MicroCompact,
        HookKind::Sandbox,
    ]
}

fn hook_kinds() -> (r: Vec<HookKind>)
    ensures
        r@ == hook_table(),
{
    let r = vec![
        HookKind::SystemPrompt,
        HookKind::PlanMode,
        HookKind::Observability,
        HookKind::Persistence,
        HookKind::TodoList,
        HookKind::Skill,
        HookKind::Profile,
        HookKind::MacroCompact,
        HookKind::MicroCompact,
        HookKind::Sandbox,
    ];
    assert(r@ =~= hook_table());
    r
}

/// Messages that hooks maintain stand in the conversation before anything is
/// summarised or cleared, and the sandbox has the last word on a call.
pub proof fn law_hooks_run_in_order(i: int, j: int)
    requires
        0 <= i < hook_table().len(),
        0 <= j < hook_table().len(),
    ensures
        (hook_table()[i] is SystemPrompt || hook_table()[i] is PlanMode || hook_table()[i]
            is TodoList || hook_table()[i] is Skill || hook_table()[i] is Profile) && (
        hook_table()[j] is MacroCompact || hook_table()[j] is MicroCompact) ==> i < j,
        hook_table()[i] is Sandbox ==> j <= i,
        hook_table()[i] == hook_table()[j] ==> i == j,
{
}

// ── The agent ───────────────────────────────────────────────────────────

/// Where a directory of skills is.
#[derive(Clone, Copy, Debug, PartialEq, Eq, Structural)]
pub enum SkillRoot {
    Workspace,
    Home,
}

/// The path of a file or directory under a root.
pub open spec fn under(root: Seq<char>, path: Seq<char>) -> Seq<char> {
    if root.len() == 0 || root.last() == '/' {
        root + path
    } else {
        root + "/"@ + path
    }
}

/// The path of a file or directory under a root.
pub fn path_under(root: &str, path: &str) -> (r: String)
    ensures
        r@ == under(root@, path@),
{
    let cs = text::chars_of(root);
    if cs.len() == 0 || cs[cs.len() - 1] == '/' {
        text::cat2(root, path)
    } else {
        text::cat3(root, "/", path)
    }
}

/// How conversations are kept, under the workspace's root.
#[derive(Clone, Debug)]
pub struct PersistenceConfig {
    /// Where conversations are kept.
    pub threads_dir: String,
    /// The file that names the conversation in use.
    pub current_thread_file: String,
    /// The title of a conversation that is written out.
    pub markdown_title: String,
}

/// What the agent is made of.
#[derive(Debug)]
pub struct AgentKit {
    /// The tools, in the order in which they are registered.
    pub tool_names: Vec<String>,
    /// The tools that a subagent has.
    pub subagent_tools: Vec<String>,
    /// The hooks, in the order in which they run.
    pub hooks: Vec<HookKind>,
    pub model: String,
    /// The model of subagents, of summaries, and of profiles.
    pub flash_model: String,
    pub max_steps: usize,
    pub max_retries: usize,
    pub streaming: bool,
    /// Under which roots skills are looked for, in this order.
    pub skill_roots: Vec<SkillRoot>,
    /// The rules for shell commands.
    pub shell_filter: ShellFilter,
    /// How conversations are kept.
    pub persistence_config: PersistenceConfig,
    /// The plan that is being written.
    pub plan_file: String,
    /// Where approved plans are kept.
    pub plan_dir: String,
    pub plan_mode: PlanModeState,
    /// The task list.
    pub todos: Vec<TodoItem>,
    /// The loaded skills.
    pub active_skills: Vec<ActiveSkill>,
    /// Hints of the user for the running agent.
    pub pending_hints: Vec<String>,
}

/// Puts the agent together for the workspace at `workspace_root`. Plan mode
/// starts off, with no tasks, no loaded skills and no hints.
pub fn build_coding_agent(
    workspace_root: &str,
    model: &str,
    flash_model: &str,
    sandbox_config: &SandboxConfig,
) -> (r: AgentKit)
    ensures
        !r.plan_mode.active,
        r.todos@.len() == 0,
        r.active_skills@.len() == 0,
        r.pending_hints@.len() == 0,
        r.plan_file@ == under(workspace_root@, PLAN_FILE@),
        r.plan_dir@ == under(workspace_root@, PLAN_DIR@),
        r.persistence_config.threads_dir@ == THREADS_DIR@,
        r.persistence_config.current_thread_file@ == CURRENT_THREAD_FILE@,
        r.persistence_config.markdown_title@ == MARKDOWN_TITLE@,
        text::texts(r.tool_names@) == tool_table(),
        text::texts(r.subagent_tools@) == subagent_table(),
        r.hooks@ == hook_table(),
        r.model@ == model@,
        r.flash_model@ == flash_model@,
        r.max_steps == MAX_STEPS,
        r.max_retries == MAX_RETRIES,
        r.streaming,
        r.skill_roots@ == seq![SkillRoot::Workspace, SkillRoot::Home],
        r.shell_filter@ == shell_filter::filter_of(*sandbox_config),
{
    let skill_roots = vec![SkillRoot::Workspace, SkillRoot::Home];
    assert(skill_roots@ =~= seq![SkillRoot::Workspace, SkillRoot::Home]);
    AgentKit {
        tool_names: registered_names(),
        subagent_tools: subagent_names(),
        hooks: hook_kinds(),
        model: model.to_owned(),
        flash_model: flash_model.to_owned(),
        max_steps: MAX_STEPS,
        max_retries: MAX_RETRIES,
        streaming: true,
        skill_roots,
        shell_filter: ShellFilter::from_config(sandbox_config),
        persistence_config: PersistenceConfig {
            threads_dir: THREADS_DIR.to_owned(),
            current_thread_file: CURRENT_THREAD_FILE.to_owned(),
            markdown_title: MARKDOWN_TITLE.to_owned(),
        },
        plan_file: path_under(workspace_root, PLAN_FILE),
        plan_dir: path_under(workspace_root, PLAN_DIR),
        plan_mode: PlanModeState { active: false },
        todos: Vec::new(),
        active_skills: Vec::new(),
        pending_hints: Vec::new(),
    }
}

/// The agent can read, search, edit and write files, run commands, calculate,
/// ask the user, keep a task list, load skills, and enter and leave plan mode.
pub proof fn law_agent_has_its_tools(name: Seq<char>)
    requires
        name == "read"@ || name == "edit"@ || name == "write"@ || name == "glob"@ || name
            == "grep"@ || name == "ls"@ || name == "shell"@ || name == "calculator"@ || name
            == "ask_user_question"@ || name == "todo"@ || name == "skill"@ || name
            == "enter_plan_mode"@ || name == "exit_plan_mode"@,
    ensures
        tool_table().contains(name),
{
    let t = tool_table();
    assert forall|i: int| 0 <= i < t.len() implies t.contains(#[trigger] t[i]) by {}
    assert(t[0] == "calculator"@ && t[1] == "read"@ && t[2] == "edit"@ && t[3] == "write"@ && t[4]
        == "glob"@ && t[5] == "grep"@ && t[6] == "ls"@ && t[7] == "shell"@);
}

} // verus!
