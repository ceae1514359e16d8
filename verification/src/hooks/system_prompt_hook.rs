//! The system messages that a conversation begins with: the main prompt, the
//! environment, and the rules of the project.

use vstd::prelude::*;
use crate::memory::{self, has_marker, push_record, Message, RecordView, Role};
use crate::text;
use crate::tui::app::{self, Skill, SkillView};
use crate::tui::shell_exec::{self, decode_lossy};

verus! {

/// How the system messages at the start begin.
pub const SYSPROMPT_MARKER: &'static str = "[SYSPROMPT]";

/// How many bytes of a file with rules are loaded.
pub const PROJECT_RULES_MAX_BYTES: usize = 10_000;

/// The skill list where there are no skills.
pub const NO_SKILLS: &'static str = "  (none available. Define skills as .md files in .loomis/skills/)";

// ── The main prompt ─────────────────────────────────────────────────────

/// The tools, each in backticks.
pub open spec fn tool_list(names: Seq<Seq<char>>) -> Seq<char> {
    text::joined(Seq::new(names.len(), |i: int| "`"@ + names[i] + "`"@), ", "@)
}

/// The skills, one per line.
pub open spec fn skill_list(skills: Seq<SkillView>) -> Seq<char> {
    if skills.len() == 0 {
        NO_SKILLS@
    } else {
        text::joined(
            Seq::new(
                skills.len(),
                |i: int| "- `"@ + skills[i].name + "` — "@ + skills[i].description,
            ),
            "\n"@,
        )
    }
}

/// The main prompt: the template with the tools and the skills in it.
pub open spec fn system_prompt(
    template: Seq<char>,
    names: Seq<Seq<char>>,
    skills: Seq<SkillView>,
) -> Seq<char> {
    text::replaced(
        text::replaced(template, "{tool_list}"@, tool_list(names)),
        "{skill_list}"@,
        skill_list(skills),
    )
}

fn tool_list_of(names: &Vec<String>) -> (r: String)
    ensures
        r@ == tool_list(text::texts(names@)),
{
    let ghost all = text::texts(names@);
    let ghost want = Seq::new(all.len(), |i: int| "`"@ + all[i] + "`"@);
    let mut parts: Vec<String> = Vec::new();
    let mut i: usize = 0;
    assert(text::texts(parts@) =~= want.take(0));
    while i < names.len()
        invariant
            i <= names@.len(),
            all == text::texts(names@),
            want == Seq::new(all.len(), |i: int| "`"@ + all[i] + "`"@),
            text::texts(parts@) == want.take(i as int),
        decreases names@.len() - i,
    {
        assert(all[i as int] == names@[i as int]@);
        text::push_text(&mut parts, text::cat3("`", names[i].as_str(), "`"));
        i = i + 1;
        assert(text::texts(parts@) =~= want.take(i as int));
    }
    assert(want.take(i as int) =~= want);
    text::join(&parts, ", ")
}

fn skill_list_of(skills: &Vec<Skill>) -> (r: String)
    ensures
        r@ == skill_list(app::skills_view(skills@)),
{
    let ghost all = app::skills_view(skills@);
    assert(all.len() == skills@.len());
    if skills.len() == 0 {
        return NO_SKILLS.to_owned();
    }
    let ghost want = Seq::new(
        all.len(),
        |i: int| "- `"@ + all[i].name + "` — "@ + all[i].description,
    );
    let mut parts: Vec<String> = Vec::new();
    let mut i: usize = 0;
    assert(text::texts(parts@) =~= want.take(0));
    while i < skills.len()
        invariant
            i <= skills@.len(),
            all == app::skills_view(skills@),
            want == Seq::new(
                all.len(),
                |i: int| "- `"@ + all[i].name + "` — "@ + all[i].description,
            ),
            text::texts(parts@) == want.take(i as int),
        decreases skills@.len() - i,
    {
        assert(all[i as int] == skills@[i as int]@);
        text::push_text(
            &mut parts,
            text::cat4("- `", skills[i].name.as_str(), "` — ", skills[i].description.as_str()),
        );
        i = i + 1;
        assert(text::texts(parts@) =~= want.take(i as int));
    }
    assert(want.take(i as int) =~= want);
    text::join(&parts, "\n")
}

/// The main prompt: the template with the tools and the skills in it.
pub fn build_system_prompt(template: &str, tool_names: &Vec<String>, skills: &Vec<Skill>) -> (r:
    String)
    ensures
        r@ == system_prompt(template@, text::texts(tool_names@), app::skills_view(skills@)),
{
    proof {
        reveal_strlit("{tool_list}");
        reveal_strlit("{skill_list}");
    }
    let tools = tool_list_of(tool_names);
    let filled = text::replace(template, "{tool_list}", tools.as_str());
    let skills = skill_list_of(skills);
    text::replace(filled.as_str(), "{skill_list}", skills.as_str())
}

// ── The environment ─────────────────────────────────────────────────────

/// What a command printed, and whether it succeeded.
#[derive(Clone, Debug)]
pub struct CommandOutput {
    pub success: bool,
    pub stdout: Vec<u8>,
}

/// What a command printed, without white space around.
pub open spec fn printed(out: CommandOutput) -> Seq<char> {
    text::trimmed(shell_exec::lossy_text(out.stdout@))
}

fn printed_by(out: &CommandOutput) -> (r: String)
    ensures
        r@ == printed(*out),
{
    text::trim(decode_lossy(&out.stdout).as_str())
}

/// The branch that git printed, and whether the tree has changes; `None`
/// where there is no git or no repository.
pub open spec fn git_text(branch: Option<CommandOutput>, status: Option<CommandOutput>) -> Option<
    Seq<char>,
> {
    match branch {
        Some(b) => if b.success && printed(b).len() > 0 {
            Some(
                "branch `"@ + printed(b) + "`, "@ + if status matches Some(s) && printed(s).len()
                    > 0 {
                    "dirty"@
                } else {
                    "clean"@
                },
            )
        } else {
            None
        },
        None => None,
    }
}

/// The branch and whether the tree has changes, out of what git printed.
pub fn detect_git_info(branch: &Option<CommandOutput>, status: &Option<CommandOutput>) -> (r: Option<
    String,
>)
    ensures
        text::opt_text(r) == git_text(*branch, *status),
{
    match branch {
        Some(b) => {
            let name = printed_by(b);
            if !b.success || name.as_str().is_empty() {
                return None;
            }
            let dirty = match status {
                Some(s) => !printed_by(s).as_str().is_empty(),
                None => false,
            };
            let word = if dirty {
                "dirty"
            } else {
                "clean"
            };
            Some(text::cat4("branch `", name.as_str(), "`, ", word))
        },
        None => None,
    }
}

/// The version of the system on Windows: what the first command that
/// succeeded printed, unless it is blank; else the name of the system.
pub open spec fn windows_version(outputs: Seq<Option<CommandOutput>>, os: Seq<char>) -> Seq<char>
    decreases outputs.len(),
{
    if outputs.len() == 0 {
        os
    } else {
        match outputs[0] {
            Some(out) => if out.success && printed(out).len() > 0 {
                printed(out)
            } else {
                windows_version(outputs.skip(1), os)
            },
            None => windows_version(outputs.skip(1), os),
        }
    }
}

/// The version of the system on Windows, out of what the commands printed,
/// in their order.
pub fn detect_windows_version(outputs: &Vec<Option<CommandOutput>>, os: &str) -> (r: String)
    ensures
        r@ == windows_version(outputs@, os@),
{
    let mut i: usize = 0;
    assert(outputs@.skip(0) =~= outputs@);
    while i < outputs.len()
        invariant
            i <= outputs@.len(),
            windows_version(outputs@.skip(i as int), os@) == windows_version(outputs@, os@),
        decreases outputs@.len() - i,
    {
        assert(outputs@.skip(i as int)[0] == outputs@[i as int]);
        assert(outputs@.skip(i as int).skip(1) =~= outputs@.skip(i + 1));
        match &outputs[i] {
            Some(out) => {
                let s = printed_by(out);
                if out.success && !s.as_str().is_empty() {
                    return s;
                }
            },
            None => {},
        }
        i = i + 1;
    }
    os.to_owned()
}

/// The version of the system elsewhere, out of what `uname` printed; the
/// system and its architecture where it could not run.
pub fn detect_unix_version(uname: &Option<CommandOutput>, os: &str, arch: &str) -> (r: String)
    ensures
        r@ == match *uname {
            Some(out) => printed(out),
            None => os@ + " "@ + arch@,
        },
{
    match uname {
        Some(out) => printed_by(out),
        None => text::cat3(os, " ", arch),
    }
}

/// The shell that commands run in: Git Bash where its variables are set,
/// `cmd` on Windows, else what the variable for the shell says.
pub fn detect_shell(msys: bool, windows: bool, shell: &Option<String>) -> (r: String)
    ensures
        r@ == if msys {
            "Git Bash (MSYS2 / MinGW)"@
        } else if windows {
            "cmd"@
        } else {
            match *shell {
                Some(s) => s@,
                None => "unknown"@,
            }
        },
{
    if msys {
        return "Git Bash (MSYS2 / MinGW)".to_owned();
    }
    if windows {
        return "cmd".to_owned();
    }
    match shell {
        Some(s) => s.clone(),
        None => "unknown".to_owned(),
    }
}

/// What the model is told of the environment.
#[derive(Clone, Debug)]
pub struct Environment {
    pub os: String,
    pub arch: String,
    pub os_version: String,
    pub shell: String,
    pub workspace: String,
    pub date: String,
    pub git: Option<String>,
}

/// The message on the environment.
pub open spec fn environment_text(e: Environment) -> Seq<char> {
    "## Environment\n\n- Platform: "@ + e.os@ + " ("@ + e.arch@ + ")\n- OS version: "@
        + e.os_version@ + "\n- Shell: "@ + e.shell@ + "\n- Workspace: "@ + e.workspace@
        + "\n- Date: "@ + e.date@ + match e.git {
        Some(git) => "\n- Git: "@ + git@,
        None => Seq::empty(),
    }
}

/// The message on the environment.
pub fn build_environment_context(e: &Environment) -> (r: String)
    ensures
        r@ == environment_text(*e),
{
    let head = text::cat5(
        "## Environment\n\n- Platform: ",
        e.os.as_str(),
        " (",
        e.arch.as_str(),
        ")\n- OS version: ",
    );
    let middle = text::cat6(
        head.as_str(),
        e.os_version.as_str(),
        "\n- Shell: ",
        e.shell.as_str(),
        "\n- Workspace: ",
        e.workspace.as_str(),
    );
    let block = text::cat3(middle.as_str(), "\n- Date: ", e.date.as_str());
    match &e.git {
        Some(git) => {
            let r = text::cat3(block.as_str(), "\n- Git: ", git.as_str());
            assert(r@ =~= environment_text(*e));
            r
        },
        None => {
            assert(block@ =~= environment_text(*e));
            block
        },
    }
}

// ── The rules of the project ────────────────────────────────────────────

/// The files that may hold rules, the most wanted one first: the project's
/// own, the one for any agent, and those of other agents.
pub open spec fn rules_files(others: Seq<Seq<char>>) -> Seq<Seq<char>> {
    seq!["LOOMIS.md"@, "AGENTS.md"@] + others
}

/// The files that may hold rules, the most wanted one first. `others` names
/// the files in which other agents look for theirs.
pub fn project_rules_files(others: &Vec<String>) -> (r: Vec<String>)
    ensures
        text::texts(r@) == rules_files(text::texts(others@)),
{
    let mut r: Vec<String> = Vec::new();
    text::push_text(&mut r, "LOOMIS.md".to_owned());
    text::push_text(&mut r, "AGENTS.md".to_owned());
    assert(text::texts(r@) =~= seq!["LOOMIS.md"@, "AGENTS.md"@]);
    let mut rest = text::clone_texts(others);
    let ghost own = text::texts(r@);
    let ghost more = text::texts(rest@);
    r.append(&mut rest);
    assert(text::texts(r@) =~= own + more);
    r
}

/// A file that may hold rules, and what it holds; nothing where it cannot be
/// read.
#[derive(Clone, Debug)]
pub struct RulesFile {
    pub name: String,
    pub content: Option<String>,
}

/// Rules that are too long are cut at a character, with a note.
pub open spec fn bounded(content: Seq<char>) -> Seq<char> {
    if text::byte_len(content) > PROJECT_RULES_MAX_BYTES {
        content.take(text::floor_index(content, PROJECT_RULES_MAX_BYTES as nat))
            + "…\n\n[Truncated from "@ + text::decimal(PROJECT_RULES_MAX_BYTES as nat)
            + " bytes — original file is "@ + text::decimal(text::byte_len(content))
            + " bytes]"@
    } else {
        content
    }
}

/// The rules of a file, where it holds any.
pub open spec fn rules_of(f: RulesFile) -> Option<Seq<char>> {
    match f.content {
        Some(c) => if text::trimmed(c@).len() > 0 {
            Some("## Project Rules ("@ + f.name@ + ")\n\n"@ + bounded(c@))
        } else {
            None
        },
        None => None,
    }
}

/// The rules of the first file that holds any.
pub open spec fn first_rules(files: Seq<RulesFile>) -> Option<Seq<char>>
    decreases files.len(),
{
    if files.len() == 0 {
        None
    } else {
        match rules_of(files[0]) {
            Some(s) => Some(s),
            None => first_rules(files.skip(1)),
        }
    }
}

fn bound(content: &str) -> (r: String)
    ensures
        r@ == bounded(content@),
{
    let n: usize = text::byte_len_of(content);
    if n > PROJECT_RULES_MAX_BYTES {
        let cs = text::chars_of(content);
        let k: usize = text::floor_chars(&cs, PROJECT_RULES_MAX_BYTES);
        assert(cs@.subrange(0, k as int) =~= content@.take(k as int));
        text::cat6(
            text::string_of_range(&cs, 0, k).as_str(),
            "…\n\n[Truncated from ",
            text::decimal_of(PROJECT_RULES_MAX_BYTES as u64).as_str(),
            " bytes — original file is ",
            text::decimal_of(n as u64).as_str(),
            " bytes]",
        )
    } else {
        content.to_owned()
    }
}

/// The rules of the first file that holds any.
pub fn try_load_project_rules(files: &Vec<RulesFile>) -> (r: Option<String>)
    ensures
        text::opt_text(r) == first_rules(files@),
{
    let mut i: usize = 0;
    assert(files@.skip(0) =~= files@);
    while i < files.len()
        invariant
            i <= files@.len(),
            first_rules(files@.skip(i as int)) == first_rules(files@),
        decreases files@.len() - i,
    {
        assert(files@.skip(i as int)[0] == files@[i as int]);
        assert(files@.skip(i as int).skip(1) =~= files@.skip(i + 1));
        match &files[i].content {
            Some(c) => {
                if !text::trim(c.as_str()).as_str().is_empty() {
                    let body = bound(c.as_str());
                    return Some(
                        text::cat4(
                            "## Project Rules (",
                            files[i].name.as_str(),
                            ")\n\n",
                            body.as_str(),
                        ),
                    );
                }
            },
            None => {},
        }
        i = i + 1;
    }
    None
}

// ── Seeding ─────────────────────────────────────────────────────────────

/// Puts the system messages at the start of a conversation.
pub struct SystemPromptHook {
    /// The main prompt, with `{tool_list}` and `{skill_list}` in it.
    pub template: String,
    pub tool_names: Vec<String>,
    pub skills: Vec<Skill>,
}

/// A system message at the start.
pub open spec fn marked(content: Seq<char>) -> RecordView {
    memory::record(Role::System, SYSPROMPT_MARKER@ + "\n\n"@ + content)
}

/// Whether a conversation has its system messages.
pub open spec fn is_seeded(v: Seq<RecordView>) -> bool {
    exists|i: int| 0 <= i < v.len() && memory::is_marked(#[trigger] v[i], SYSPROMPT_MARKER@)
}

/// The conversation with its system messages; one that has them is left as
/// it is.
pub open spec fn seeded(
    v: Seq<RecordView>,
    prompt: Seq<char>,
    environment: Seq<char>,
    rules: Option<Seq<char>>,
) -> Seq<RecordView> {
    if is_seeded(v) {
        v
    } else {
        let w = v.push(marked(prompt)).push(marked(environment));
        match rules {
            Some(s) => w.push(marked(s)),
            None => w,
        }
    }
}

fn has_prompts(v: &Vec<Message>) -> (r: bool)
    ensures
        r == is_seeded(memory::records(v@)),
{
    let ghost all = memory::records(v@);
    let mut i: usize = 0;
    while i < v.len()
        invariant
            i <= v@.len(),
            all == memory::records(v@),
            forall|k: int|
                0 <= k < i ==> !memory::is_marked(#[trigger] all[k], SYSPROMPT_MARKER@),
        decreases v@.len() - i,
    {
        assert(all[i as int] == v@[i as int]@);
        if has_marker(&v[i], SYSPROMPT_MARKER) {
            assert(memory::is_marked(all[i as int], SYSPROMPT_MARKER@));
            return true;
        }
        i = i + 1;
    }
    false
}

fn push_marked(v: &mut Vec<Message>, content: &str)
    ensures
        memory::records(final(v)@) == memory::records(old(v)@).push(marked(content@)),
{
    push_record(v, Message::new(Role::System, text::cat3(SYSPROMPT_MARKER, "\n\n", content)));
}

impl SystemPromptHook {
    /// A hook for a prompt, its tools and its skills.
    pub fn new(template: String, tool_names: Vec<String>, skills: Vec<Skill>) -> (r:
        SystemPromptHook)
        ensures
            r.template@ == template@,
            r.tool_names@ == tool_names@,
            r.skills@ == skills@,
    {
        SystemPromptHook { template, tool_names, skills }
    }

    /// Gives a conversation its system messages at the start of a run, where
    /// it does not have them.
    pub fn on_run_start(
        &self,
        messages: &mut Vec<Message>,
        environment: &Environment,
        files: &Vec<RulesFile>,
    )
        ensures
            memory::records(final(messages)@) == seeded(
                memory::records(old(messages)@),
                system_prompt(
                    self.template@,
                    text::texts(self.tool_names@),
                    app::skills_view(self.skills@),
                ),
                environment_text(*environment),
                first_rules(files@),
            ),
    {
        if has_prompts(messages) {
            return ;
        }
        let prompt = build_system_prompt(self.template.as_str(), &self.tool_names, &self.skills);
        push_marked(messages, prompt.as_str());
        let context = build_environment_context(environment);
        push_marked(messages, context.as_str());
        match try_load_project_rules(files) {
            Some(rules) => {
                push_marked(messages, rules.as_str());
            },
            None => {},
        }
    }
}

// ── Laws ────────────────────────────────────────────────────────────────

proof fn lemma_marked(content: Seq<char>)
    ensures
        memory::is_marked(marked(content), SYSPROMPT_MARKER@),
{
    let m = marked(content);
    assert(m.content.subrange(0, SYSPROMPT_MARKER@.len() as int) =~= SYSPROMPT_MARKER@);
}

/// A conversation that has its system messages stays as it is, however often
/// and with whatever prompts runs start: nothing is seeded twice.
pub proof fn law_seeding_happens_once(
    v: Seq<RecordView>,
    prompt: Seq<char>,
    environment: Seq<char>,
    rules: Option<Seq<char>>,
    later_prompt: Seq<char>,
    later_environment: Seq<char>,
    later_rules: Option<Seq<char>>,
)
    ensures
        seeded(
            seeded(v, prompt, environment, rules),
            later_prompt,
            later_environment,
            later_rules,
        ) == seeded(v, prompt, environment, rules),
{
    let w = seeded(v, prompt, environment, rules);
    if !is_seeded(v) {
        lemma_marked(prompt);
        assert(w[v.len() as int] == marked(prompt));
    }
}

/// What is seeded stands behind the conversation, and every message of it is
/// marked.
pub proof fn law_seeded_messages_are_marked(
    v: Seq<RecordView>,
    prompt: Seq<char>,
    environment: Seq<char>,
    rules: Option<Seq<char>>,
    i: int,
)
    requires
        v.len() <= i < seeded(v, prompt, environment, rules).len(),
    ensures
        memory::is_marked(seeded(v, prompt, environment, rules)[i], SYSPROMPT_MARKER@),
        seeded(v, prompt, environment, rules).take(v.len() as int) == v,
{
    lemma_marked(prompt);
    lemma_marked(environment);
    match rules {
        Some(s) => lemma_marked(s),
        None => {},
    }
    assert(seeded(v, prompt, environment, rules).take(v.len() as int) =~= v);
}

proof fn lemma_floor(s: Seq<char>, max: nat)
    ensures
        0 <= text::floor_index(s, max) <= s.len(),
        text::byte_len(s.take(text::floor_index(s, max))) <= max,
    decreases s.len(),
{
    if s.len() > 0 {
        lemma_floor(s.drop_last(), max);
        let k = text::floor_index(s.drop_last(), max);
        assert(s.take(s.len() as int) =~= s);
        assert(s.drop_last().take(k) =~= s.take(k));
    } else {
        assert(s.take(0) =~= s);
    }
}

/// No more than the limit is loaded of a file with rules; a shorter file is
/// loaded whole.
pub proof fn law_rules_are_bounded(content: Seq<char>)
    ensures
        text::byte_len(content) <= PROJECT_RULES_MAX_BYTES ==> bounded(content) == content,
        text::byte_len(
            content.take(text::floor_index(content, PROJECT_RULES_MAX_BYTES as nat)),
        ) <= PROJECT_RULES_MAX_BYTES,
{
    lemma_floor(content, PROJECT_RULES_MAX_BYTES as nat);
}

} // verus!
