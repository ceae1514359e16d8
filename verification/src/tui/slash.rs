//! Slash commands: what each of them does, and the popup that completes
//! them.

use vstd::prelude::*;
use crate::memory;
use crate::text;
use crate::tui::app::{self, ActiveSkill, App, AppView, Skill, SkillView};
use crate::tui::editor;
use crate::tui::keyboard::{self, Platform};
use crate::tui::messages::{
    self, push_message, ChatMessage, CommandView, CompletionView, MessageView,
    SlashCompletionState, TuiCommand,
};

verus! {

/// What the interface is told of the world around it when a key comes.
pub struct Facts {
    /// The time of day.
    pub timestamp: String,
    /// How many messages the model's memory holds.
    pub memory_len: usize,
    /// How many characters those have.
    pub memory_chars: usize,
}

/// What the facts hold.
pub struct FactsView {
    pub now: Seq<char>,
    pub memory_len: nat,
    pub memory_chars: nat,
}

impl View for Facts {
    type V = FactsView;

    open spec fn view(&self) -> FactsView {
        FactsView {
            now: self.timestamp@,
            memory_len: self.memory_len as nat,
            memory_chars: self.memory_chars as nat,
        }
    }
}

// ── Completion ──────────────────────────────────────────────────────────

/// The popup for what was typed behind the slash, in lower case: the
/// commands that begin with it; none where no command does. The highlight
/// stays where it was as far as it can.
pub open spec fn completion_for(filter: Seq<char>, previous: Option<usize>) -> Option<
    CompletionView,
> {
    let found = messages::matching_commands(messages::command_table(), filter);
    if found.len() == 0 {
        None
    } else {
        Some(
            CompletionView {
                matches: found,
                selected: match previous {
                    Some(s) => if s < found.len() {
                        s
                    } else {
                        (found.len() - 1) as usize
                    },
                    None => 0,
                },
            },
        )
    }
}

/// The popup for what was typed behind the slash, in lower case.
pub fn complete_for(filter: &str, previous: Option<usize>) -> (r: Option<SlashCompletionState>)
    ensures
        app::completion_view(r) == completion_for(filter@, previous),
{
    let found = messages::commands_matching(filter);
    assert(messages::infos_view(found@).len() == found@.len());
    if found.len() == 0 {
        return None;
    }
    let selected: usize = match previous {
        Some(s) => if s < found.len() {
            s
        } else {
            found.len() - 1
        },
        None => 0,
    };
    Some(SlashCompletionState { matches: found, selected })
}

/// The highlighted place of a popup.
pub open spec fn selected_of(c: Option<CompletionView>) -> Option<usize> {
    match c {
        Some(c) => Some(c.selected),
        None => None,
    }
}

/// The input without its first character.
pub open spec fn behind_slash(input: Seq<char>) -> Seq<char> {
    if input.len() > 0 {
        input.skip(1)
    } else {
        input
    }
}

/// The state with the popup for the input.
pub open spec fn recompleted(a: AppView) -> AppView {
    AppView {
        slash_completion: completion_for(
            text::lowercase(behind_slash(a.input)),
            selected_of(a.slash_completion),
        ),
        ..a
    }
}

/// The state with the highlighted command in the input, and no popup.
pub open spec fn accepted(a: AppView) -> AppView {
    match a.slash_completion {
        Some(c) => if c.selected < c.matches.len() {
            let input = "/"@ + c.matches[c.selected as int].name + " "@;
            AppView {
                input,
                input_cursor: text::byte_len(input) as int,
                slash_completion: None,
                ..a
            }
        } else {
            AppView { slash_completion: None, ..a }
        },
        None => a,
    }
}

/// Whether the highlighted command cannot do without an argument.
pub open spec fn needs_argument(a: AppView) -> bool {
    a.slash_completion matches Some(c) && c.selected < c.matches.len()
        && c.matches[c.selected as int].usage.contains('<')
}

proof fn lemma_completion_wf(filter: Seq<char>, previous: Option<usize>)
    ensures
        completion_for(filter, previous) matches Some(c) ==> c.selected < c.matches.len(),
{
    lemma_matching_len(messages::command_table(), filter);
}

proof fn lemma_matching_len(table: Seq<messages::InfoView>, filter: Seq<char>)
    ensures
        messages::matching_commands(table, filter).len() <= table.len(),
    decreases table.len(),
{
    if table.len() > 0 {
        lemma_matching_len(table.drop_last(), filter);
    }
}

pub proof fn lemma_recompleted_wf(a: AppView)
    requires
        a.wf(),
    ensures
        recompleted(a).wf(),
{
    lemma_completion_wf(text::lowercase(behind_slash(a.input)), selected_of(a.slash_completion));
}

pub proof fn lemma_accepted_wf(a: AppView)
    requires
        a.wf(),
    ensures
        accepted(a).wf(),
        accepted(a).slash_completion is None,
{
    editor::lemma_ends(accepted(a).input);
}

/// A command is completed to itself: a popup lists the commands whose names
/// begin with what was typed, and no others.
pub proof fn law_popup_lists_matches(filter: Seq<char>, previous: Option<usize>, name: Seq<char>)
    ensures
        (completion_for(filter, previous) matches Some(c) && exists|i: int|
            0 <= i < c.matches.len() && (#[trigger] c.matches[i]).name == name) <==> (
        text::begins_with(name, filter) && exists|k: int|
            0 <= k < messages::command_table().len() && (
            #[trigger] messages::command_table()[k]).name == name),
{
    lemma_matching(messages::command_table(), filter, name);
    let found = messages::matching_commands(messages::command_table(), filter);
    let popup = completion_for(filter, previous);
    if exists|i: int| 0 <= i < found.len() && (#[trigger] found[i]).name == name {
        let i = choose|i: int| 0 <= i < found.len() && (#[trigger] found[i]).name == name;
        assert(popup->0.matches[i].name == name);
    }
    if popup is Some {
        assert(popup->0.matches == found);
    }
}

proof fn lemma_matching(table: Seq<messages::InfoView>, filter: Seq<char>, name: Seq<char>)
    ensures
        (exists|i: int|
            0 <= i < messages::matching_commands(table, filter).len() && (
            #[trigger] messages::matching_commands(table, filter)[i]).name == name) <==> (
        text::begins_with(name, filter) && exists|k: int|
            0 <= k < table.len() && (#[trigger] table[k]).name == name),
    decreases table.len(),
{
    if table.len() > 0 {
        let front = table.drop_last();
        lemma_matching(front, filter, name);
        let rest = messages::matching_commands(front, filter);
        let all = messages::matching_commands(table, filter);
        if text::begins_with(name, filter) && exists|k: int|
            0 <= k < table.len() && (#[trigger] table[k]).name == name {
            let k = choose|k: int| 0 <= k < table.len() && (#[trigger] table[k]).name == name;
            if k < front.len() {
                assert(front[k].name == name);
                let i = choose|i: int| 0 <= i < rest.len() && (#[trigger] rest[i]).name == name;
                assert(all[i].name == name);
            } else {
                assert(all[all.len() - 1].name == name);
            }
        }
        if exists|i: int| 0 <= i < all.len() && (#[trigger] all[i]).name == name {
            let i = choose|i: int| 0 <= i < all.len() && (#[trigger] all[i]).name == name;
            if i < rest.len() {
                assert(rest[i].name == name);
                let k = choose|k: int| 0 <= k < front.len() && (#[trigger] front[k]).name == name;
                assert(table[k].name == name);
            } else {
                assert(table[table.len() - 1].name == name);
            }
        }
    }
}

// ── Commands ────────────────────────────────────────────────────────────

/// The command word of an input, and what follows it without white space
/// around.
pub open spec fn split_command(input: Seq<char>) -> (Seq<char>, Seq<char>) {
    let k = text::first_space(input);
    if k < input.len() {
        (input.take(k), text::trimmed(input.skip(k + 1)))
    } else {
        (input, Seq::empty())
    }
}

/// The command word of an input, and what follows it.
pub fn split_command_of(input: &str) -> (r: (String, String))
    ensures
        (r.0@, r.1@) == split_command(input@),
{
    let cs = text::chars_of(input);
    let k: usize = text::find_space(&cs);
    if k < cs.len() {
        assert(cs@.subrange(0, k as int) =~= input@.take(k as int));
        assert(cs@.subrange(k + 1, cs@.len() as int) =~= input@.skip(k + 1));
        let tail = text::string_of_range(&cs, k + 1, cs.len());
        (text::string_of_range(&cs, 0, k), text::trim(tail.as_str()))
    } else {
        (input.to_owned(), String::new())
    }
}

/// The names of the skills.
pub open spec fn skill_names(skills: Seq<SkillView>) -> Seq<Seq<char>> {
    skills.map_values(|s: SkillView| s.name)
}

/// The first skill of a name, or `None`.
pub open spec fn skill_by_name(skills: Seq<SkillView>, name: Seq<char>) -> Option<SkillView>
    decreases skills.len(),
{
    if skills.len() == 0 {
        None
    } else if skills[0].name == name {
        Some(skills[0])
    } else {
        skill_by_name(skills.skip(1), name)
    }
}

/// The names of skills.
pub fn names_of(skills: &Vec<Skill>) -> (r: Vec<String>)
    ensures
        text::texts(r@) == skill_names(app::skills_view(skills@)),
{
    let ghost all = skill_names(app::skills_view(skills@));
    let mut names: Vec<String> = Vec::new();
    let mut i: usize = 0;
    assert(text::texts(names@) =~= all.take(0));
    while i < skills.len()
        invariant
            i <= skills@.len(),
            all == skill_names(app::skills_view(skills@)),
            text::texts(names@) == all.take(i as int),
        decreases skills@.len() - i,
    {
        assert(all[i as int] == skills@[i as int].name@);
        text::push_text(&mut names, skills[i].name.clone());
        i = i + 1;
        assert(text::texts(names@) =~= all.take(i as int));
    }
    assert(all.take(i as int) =~= all);
    names
}

/// The position of the first skill of a name, or `None`.
pub fn find_skill(skills: &Vec<Skill>, name: &str) -> (r: Option<usize>)
    ensures
        match r {
            Some(i) => i < skills@.len() && skill_by_name(app::skills_view(skills@), name@) == Some(
                skills@[i as int]@,
            ),
            None => skill_by_name(app::skills_view(skills@), name@) is None,
        },
{
    let ghost all = app::skills_view(skills@);
    let mut i: usize = 0;
    assert(all.skip(0) =~= all);
    while i < skills.len()
        invariant
            i <= skills@.len(),
            all == app::skills_view(skills@),
            skill_by_name(all.skip(i as int), name@) == skill_by_name(all, name@),
        decreases skills@.len() - i,
    {
        assert(all.skip(i as int)[0] == skills@[i as int]@);
        assert(all.skip(i as int).skip(1) =~= all.skip(i + 1));
        if text::same_text(skills[i].name.as_str(), name) {
            return Some(i);
        }
        i = i + 1;
    }
    None
}

/// The loaded skills with one more; a skill that was loaded gets the new
/// content.
pub open spec fn activated(
    active: Seq<(Seq<char>, Seq<char>)>,
    name: Seq<char>,
    content: Seq<char>,
) -> Seq<(Seq<char>, Seq<char>)>
    decreases active.len(),
{
    if active.len() == 0 {
        seq![(name, content)]
    } else if active[0].0 == name {
        seq![(name, content)] + active.skip(1)
    } else {
        seq![active[0]] + activated(active.skip(1), name, content)
    }
}

/// Loads a skill; one that was loaded gets the new content.
pub fn activate_skill(active: &mut Vec<ActiveSkill>, name: String, content: String)
    ensures
        app::active_view(final(active)@) == activated(
            app::active_view(old(active)@),
            name@,
            content@,
        ),
{
    let ghost all = app::active_view(active@);
    let mut i: usize = 0;
    assert(all.skip(0) =~= all);
    assert(all.take(0) + activated(all, name@, content@) =~= activated(all, name@, content@));
    let n: usize = active.len();
    while i < n && !text::same_text(active[i].name.as_str(), name.as_str())
        invariant
            i <= n == active@.len(),
            all == app::active_view(active@),
            active@ == old(active)@,
            all.take(i as int) + activated(all.skip(i as int), name@, content@) == activated(
                all,
                name@,
                content@,
            ),
        decreases n - i,
    {
        assert(all.skip(i as int)[0] == all[i as int]);
        assert(all[i as int].0 == active@[i as int].name@);
        assert(all.skip(i as int).skip(1) =~= all.skip(i + 1));
        assert(all.take(i + 1) + activated(all.skip(i + 1), name@, content@) =~= all.take(i as int)
            + activated(all.skip(i as int), name@, content@));
        i = i + 1;
    }
    let entry = ActiveSkill { name, content };
    if i < n {
        assert(all.skip(i as int)[0].0 == active@[i as int].name@);
        active.set(i, entry);
        assert(app::active_view(active@) =~= activated(all, name@, content@));
    } else {
        assert(all.skip(i as int) =~= Seq::<(Seq<char>, Seq<char>)>::empty());
        active.push(entry);
        assert(app::active_view(active@) =~= activated(all, name@, content@));
    }
}

/// The numbered list of the tools.
pub open spec fn tool_list(names: Seq<Seq<char>>) -> Seq<char> {
    if names.len() == 0 {
        "No tools registered."@
    } else {
        text::joined(
            Seq::new(
                names.len(),
                |i: int| "  "@ + text::decimal((i + 1) as nat) + ". "@ + names[i],
            ),
            "\n"@,
        )
    }
}

/// A line of the help on a shortcut.
pub open spec fn shortcut_line(label: Seq<char>, what: Seq<char>) -> Seq<char> {
    "  "@ + text::padded_right(label, 13, ' ') + what
}

/// The lines of the help.
pub open spec fn help_lines(platform: Platform) -> Seq<Seq<char>> {
    seq![
        "Commands:"@,
        "  /exit          — quit"@,
        "  /new           — start a new conversation"@,
        "  /init [text]   — initialize or update project rules (LOOMIS.md);"@,
        "                    text = extra instruction for the init agent"@,
        "  /plan [text]   — toggle plan mode (read-only research & planning);"@,
        "                    with text, enter plan mode and make the plan"@,
        "  /approve       — approve plan and exit plan mode"@,
        "  /save <name>   — save conversation as a named thread"@,
        "  /resume [name] — restore a thread (no name = picker)"@,
        "  /threads       — open thread picker"@,
        "  /stats         — memory statistics"@,
        "  /tools         — list registered tools"@,
        "  /skill <name>  — load a named skill"@,
        "  /debug         — toggle the trace panel"@,
        "  /trace-save    — export trace events to a JSONL file"@,
        "  /help          — show this message"@,
        ""@,
        "Shell prefix:"@,
        "  !<cmd>  — run a shell command and share output with the agent"@,
        "  !!text  — literal text starting with '!' (not a shell command)"@,
        "  Example: !dir, !git status, !cargo test"@,
        ""@,
        "Keys:"@,
        "  Enter        — send message"@,
        "  Shift+Enter  — newline"@,
        "  PgUp/PgDown/🖱 — scroll chat"@,
        "  Up/Down      — input history / multi-line nav"@,
        "  Ctrl+O       — toggle the trace panel"@,
        shortcut_line(keyboard::copy_shortcut_label(platform)@, " — copy selected text"@),
        shortcut_line(keyboard::paste_shortcut_label(platform)@, " — paste from clipboard"@),
        shortcut_line(keyboard::cancel_shortcut_label()@, " — cancel generation / exit"@),
        "  Esc          — cancel generation"@,
        "  Y / n        — approve / deny shell command"@,
    ]
}

/// Usage of `/save`.
pub const SAVE_USAGE: &'static str = "Usage: /save <name>  —  name must not contain control characters or any of: / \\ : * ? \" < > |";

/// What a name of a conversation must be.
pub open spec fn is_thread_name(name: Seq<char>) -> bool {
    name.len() > 0 && forall|i: int|
        0 <= i < name.len() ==> !messages::is_illegal_in_name(#[trigger] name[i])
}

/// `/save`: asks for the conversation to be saved under a valid name.
pub open spec fn on_save(a: AppView, name: Seq<char>, now: Seq<char>) -> (AppView, Option<CommandView>) {
    if is_thread_name(name) {
        (a, Some(CommandView::SaveConversation(name)))
    } else {
        (a.with_system(SAVE_USAGE@, now), None)
    }
}

/// `/skill`: loads a skill, or says which there are.
pub open spec fn on_skill(a: AppView, name: Seq<char>, now: Seq<char>) -> (AppView, Option<CommandView>) {
    let available = text::joined(skill_names(a.skills), ", "@);
    if name.len() == 0 {
        (
            a.with_system(
                if available.len() == 0 {
                    "No skills available. Define skill .md files in .loomis/skills/."@
                } else {
                    "Usage: /skill <name>\nAvailable: "@ + available
                },
                now,
            ),
            None,
        )
    } else {
        match skill_by_name(a.skills, name) {
            Some(s) => (
                (AppView {
                    active_skills: activated(a.active_skills, s.name, s.content),
                    ..a
                }).with_system(
                    "Loaded skill \""@ + s.name + "\" — "@ + s.description,
                    now,
                ),
                Some(
                    CommandView::InjectSystem("[SKILL: "@ + s.name + "]\n\n"@ + s.content),
                ),
            ),
            None => (
                a.with_error(
                    "Unknown skill \""@ + name + "\". Available: ["@ + available + "]"@,
                    now,
                ),
                None,
            ),
        }
    }
}

/// `/new`: starts a conversation; the old one is saved under its name.
pub open spec fn on_new(a: AppView, now: Seq<char>) -> (AppView, Option<CommandView>) {
    (
        AppView {
            conversation_title: None,
            messages: seq![
                MessageView::System {
                    content: "New conversation started (system prompt preserved)."@,
                    timestamp: now,
                },
            ],
            ..a
        },
        Some(CommandView::ClearConversation { save_as: a.conversation_title }),
    )
}

/// `/plan`: turns plan mode on or off; with a text it turns it on and hands
/// the text to the agent.
pub open spec fn on_plan(a: AppView, rest: Seq<char>, now: Seq<char>) -> (AppView, Option<CommandView>) {
    let on = if rest.len() == 0 {
        !a.plan_active
    } else {
        true
    };
    let b = AppView {
        plan_active: on,
        needs_plan_dir: a.needs_plan_dir || (on && !a.plan_active),
        ..a
    };
    let c = if on && !a.plan_active {
        b.with_system(
            "Plan mode activated. Plan file: "@ + a.plan_file
                + "\nUse /plan again to deactivate, or /approve to exit plan mode."@,
            now,
        )
    } else if !on {
        b.with_system("Plan mode deactivated. Full access restored."@, now)
    } else {
        b
    };
    if rest.len() == 0 {
        (c, None)
    } else {
        (
            (AppView {
                scroll_offset: 0,
                streaming: true,
                last_submitted_input: Some(rest),
                ..c
            }).with_message(MessageView::User { content: rest, timestamp: now }),
            Some(CommandView::RunAgent(rest)),
        )
    }
}

/// `/approve`: asks for the plan to be archived, in plan mode only.
pub open spec fn on_approve(a: AppView, now: Seq<char>) -> (AppView, Option<CommandView>) {
    if a.plan_active {
        (a, Some(CommandView::ArchivePlan))
    } else {
        (a.with_system("Not in plan mode. Use /plan first to enter plan mode."@, now), None)
    }
}

/// The prompt of `/init`, with what the user added to it.
pub open spec fn init_prompt(base: Seq<char>, rest: Seq<char>) -> Seq<char> {
    if rest.len() == 0 {
        base
    } else {
        base + "\n\n### Additional instruction from the user\n\n"@ + rest
    }
}

/// What an input that is a slash command does; `None` where it is no
/// command.
pub open spec fn on_slash(a: AppView, input: Seq<char>, f: FactsView) -> Option<
    (AppView, Option<CommandView>),
> {
    let (cmd, rest) = split_command(input);
    if cmd == "/save"@ {
        Some(on_save(a, rest, f.now))
    } else if cmd == "/resume"@ {
        if rest.len() == 0 {
            Some((a, Some(CommandView::ListThreads)))
        } else {
            Some((a, Some(CommandView::LoadConversation(rest))))
        }
    } else if cmd == "/skill"@ {
        Some(on_skill(a, rest, f.now))
    } else if cmd == "/exit"@ {
        Some((AppView { should_quit: true, ..a }, Some(CommandView::Exit)))
    } else if cmd == "/new"@ {
        Some(on_new(a, f.now))
    } else if cmd == "/plan"@ {
        Some(on_plan(a, rest, f.now))
    } else if cmd == "/approve"@ {
        Some(on_approve(a, f.now))
    } else if cmd == "/threads"@ {
        Some((a, Some(CommandView::ListThreads)))
    } else if cmd == "/stats"@ {
        Some(
            (
                a.with_system(
                    "Messages: "@ + text::decimal(f.memory_len) + "  |  Characters: "@
                        + text::decimal(f.memory_chars),
                    f.now,
                ),
                None,
            ),
        )
    } else if cmd == "/tools"@ {
        Some((a.with_system(tool_list(a.tool_names), f.now), None))
    } else if cmd == "/init"@ {
        Some(
            (
                a.with_system(
                    "Initializing project documentation…\nI'll explore the codebase, ask a few questions, and create or update LOOMIS.md."@,
                    f.now,
                ),
                Some(CommandView::RunAgent(init_prompt(a.init_prompt, rest))),
            ),
        )
    } else if cmd == "/debug"@ {
        Some((AppView { debug: a.debug.toggled(), ..a }, None))
    } else if cmd == "/trace-save"@ {
        Some((a, Some(CommandView::SaveTrace)))
    } else if cmd == "/help"@ {
        Some((a.with_system(text::joined(help_lines(a.platform), "\n"@), f.now), None))
    } else {
        None
    }
}

fn tool_list_of(names: &Vec<String>) -> (r: String)
    ensures
        r@ == tool_list(text::texts(names@)),
{
    if names.len() == 0 {
        assert(text::texts(names@).len() == 0);
        return "No tools registered.".to_owned();
    }
    let ghost all = text::texts(names@);
    let ghost want = Seq::new(
        all.len(),
        |i: int| "  "@ + text::decimal((i + 1) as nat) + ". "@ + all[i],
    );
    let mut lines: Vec<String> = Vec::new();
    let mut i: usize = 0;
    while i < names.len()
        invariant
            i <= names@.len(),
            all == text::texts(names@),
            want == Seq::new(
                all.len(),
                |i: int| "  "@ + text::decimal((i + 1) as nat) + ". "@ + all[i],
            ),
            text::texts(lines@) == want.take(i as int),
        decreases names@.len() - i,
    {
        assert(all[i as int] == names@[i as int]@);
        let n: u64 = (i as u64) + 1;
        text::push_text(
            &mut lines,
            text::cat4("  ", text::decimal_of(n).as_str(), ". ", names[i].as_str()),
        );
        i = i + 1;
        assert(text::texts(lines@) =~= want.take(i as int));
    }
    assert(want.take(i as int) =~= want);
    text::join(&lines, "\n")
}

fn shortcut_line_of(label: &str, what: &str) -> (r: String)
    ensures
        r@ == shortcut_line(label@, what@),
{
    text::cat3("  ", text::pad_right(label, 13).as_str(), what)
}

/// The text of the help.
pub fn help_text(platform: Platform) -> (r: String)
    ensures
        r@ == text::joined(help_lines(platform), "\n"@),
{
    let mut v: Vec<String> = Vec::new();
    text::push_text(&mut v, "Commands:".to_owned());
    text::push_text(&mut v, "  /exit          — quit".to_owned());
    text::push_text(&mut v, "  /new           — start a new conversation".to_owned());
    text::push_text(
        &mut v,
        "  /init [text]   — initialize or update project rules (LOOMIS.md);".to_owned(),
    );
    text::push_text(
        &mut v,
        "                    text = extra instruction for the init agent".to_owned(),
    );
    text::push_text(
        &mut v,
        "  /plan [text]   — toggle plan mode (read-only research & planning);".to_owned(),
    );
    text::push_text(
        &mut v,
        "                    with text, enter plan mode and make the plan".to_owned(),
    );
    text::push_text(&mut v, "  /approve       — approve plan and exit plan mode".to_owned());
    text::push_text(&mut v, "  /save <name>   — save conversation as a named thread".to_owned());
    text::push_text(&mut v, "  /resume [name] — restore a thread (no name = picker)".to_owned());
    text::push_text(&mut v, "  /threads       — open thread picker".to_owned());
    text::push_text(&mut v, "  /stats         — memory statistics".to_owned());
    text::push_text(&mut v, "  /tools         — list registered tools".to_owned());
    text::push_text(&mut v, "  /skill <name>  — load a named skill".to_owned());
    text::push_text(&mut v, "  /debug         — toggle the trace panel".to_owned());
    text::push_text(
        &mut v,
        "  /trace-save    — export trace events to a JSONL file".to_owned(),
    );
    text::push_text(&mut v, "  /help          — show this message".to_owned());
    text::push_text(&mut v, "".to_owned());
    text::push_text(&mut v, "Shell prefix:".to_owned());
    text::push_text(
        &mut v,
        "  !<cmd>  — run a shell command and share output with the agent".to_owned(),
    );
    text::push_text(
        &mut v,
        "  !!text  — literal text starting with '!' (not a shell command)".to_owned(),
    );
    text::push_text(&mut v, "  Example: !dir, !git status, !cargo test".to_owned());
    text::push_text(&mut v, "".to_owned());
    text::push_text(&mut v, "Keys:".to_owned());
    text::push_text(&mut v, "  Enter        — send message".to_owned());
    text::push_text(&mut v, "  Shift+Enter  — newline".to_owned());
    text::push_text(&mut v, "  PgUp/PgDown/🖱 — scroll chat".to_owned());
    text::push_text(&mut v, "  Up/Down      — input history / multi-line nav".to_owned());
    text::push_text(&mut v, "  Ctrl+O       — toggle the trace panel".to_owned());
    text::push_text(
        &mut v,
        shortcut_line_of(keyboard::copy_shortcut_label(platform), " — copy selected text"),
    );
    text::push_text(
        &mut v,
        shortcut_line_of(keyboard::paste_shortcut_label(platform), " — paste from clipboard"),
    );
    text::push_text(
        &mut v,
        shortcut_line_of(keyboard::cancel_shortcut_label(), " — cancel generation / exit"),
    );
    text::push_text(&mut v, "  Esc          — cancel generation".to_owned());
    text::push_text(&mut v, "  Y / n        — approve / deny shell command".to_owned());
    assert(text::texts(v@) =~= help_lines(platform));
    text::join(&v, "\n")
}

impl App {
    fn set_completion(&mut self, c: Option<SlashCompletionState>)
        ensures
            final(self)@ == (AppView {
                slash_completion: app::completion_view(c),
                ..old(self)@
            }),
    {
        reveal(app::app_view);
        self.slash_completion = c;
    }

    /// Brings the popup in line with the input.
    pub fn update_slash_completion(&mut self)
        ensures
            final(self)@ == recompleted(old(self)@),
    {
        reveal(app::app_view);
        let cs = text::chars_of(self.input.as_str());
        let from: usize = if cs.len() > 0 {
            1
        } else {
            0
        };
        let tail = text::string_of_range(&cs, from, cs.len());
        assert(tail@ =~= behind_slash(self@.input));
        let filter = text::to_lowercase(tail.as_str());
        let previous = match &self.slash_completion {
            Some(c) => Some(c.selected),
            None => None,
        };
        let c = complete_for(filter.as_str(), previous);
        self.set_completion(c);
    }

    /// Puts the highlighted command into the input, and closes the popup.
    pub fn accept_slash_completion(&mut self)
        ensures
            final(self)@ == accepted(old(self)@),
    {
        reveal(app::app_view);
        let name = match &self.slash_completion {
            Some(c) => {
                assert(messages::infos_view(c.matches@).len() == c.matches@.len());
                if c.selected < c.matches.len() {
                    assert(messages::infos_view(c.matches@)[c.selected as int]
                        == c.matches@[c.selected as int]@);
                    Some(c.matches[c.selected].name)
                } else {
                    None
                }
            },
            None => None,
        };
        match name {
            Some(name) => {
                let input = text::cat3("/", name, " ");
                let n: usize = text::byte_len_of(input.as_str());
                self.input = input;
                self.input_cursor = n;
            },
            None => {},
        }
        self.slash_completion = None;
    }

    /// Whether the highlighted command cannot do without an argument.
    pub fn completion_needs_argument(&self) -> (r: bool)
        ensures
            r == needs_argument(self@),
    {
        reveal(app::app_view);
        match &self.slash_completion {
            Some(c) => {
                assert(messages::infos_view(c.matches@).len() == c.matches@.len());
                if c.selected < c.matches.len() {
                    assert(messages::infos_view(c.matches@)[c.selected as int]
                        == c.matches@[c.selected as int]@);
                    text::has_char(c.matches[c.selected].usage, '<')
                } else {
                    false
                }
            },
            None => false,
        }
    }

    fn run_save(&mut self, name: &str, now: &str) -> (r: Option<TuiCommand>)
        ensures
            (final(self)@, messages::command_view(r)) == on_save(old(self)@, name@, now@),
    {
        if messages::is_valid_thread_name(name) {
            Some(TuiCommand::SaveConversation(name.to_owned()))
        } else {
            self.push_system(SAVE_USAGE.to_owned(), now);
            None
        }
    }

    fn available_skills(&self) -> (r: String)
        ensures
            r@ == text::joined(skill_names(self@.skills), ", "@),
    {
        reveal(app::app_view);
        let names = names_of(&self.skills);
        text::join(&names, ", ")
    }

    fn pick_skill(&self, name: &str) -> (r: Option<usize>)
        ensures
            match r {
                Some(i) => i < self.skills@.len() && skill_by_name(self@.skills, name@) == Some(
                    self.skills@[i as int]@,
                ),
                None => skill_by_name(self@.skills, name@) is None,
            },
    {
        reveal(app::app_view);
        find_skill(&self.skills, name)
    }

    fn activate(&mut self, name: String, content: String)
        ensures
            final(self)@ == (AppView {
                active_skills: activated(old(self)@.active_skills, name@, content@),
                ..old(self)@
            }),
    {
        reveal(app::app_view);
        activate_skill(&mut self.active_skills, name, content);
    }

    fn run_skill(&mut self, name: &str, now: &str) -> (r: Option<TuiCommand>)
        ensures
            (final(self)@, messages::command_view(r)) == on_skill(old(self)@, name@, now@),
    {
        let available = self.available_skills();
        if name.is_empty() {
            if available.as_str().is_empty() {
                self.push_system(
                    "No skills available. Define skill .md files in .loomis/skills/.".to_owned(),
                    now,
                );
            } else {
                self.push_system(
                    text::cat2("Usage: /skill <name>\nAvailable: ", available.as_str()),
                    now,
                );
            }
            return None;
        }
        match self.pick_skill(name) {
            Some(i) => {
                let skill_name = self.skills[i].name.clone();
                let content = self.skills[i].content.clone();
                let message = text::cat4(
                    "Loaded skill \"",
                    skill_name.as_str(),
                    "\" — ",
                    self.skills[i].description.as_str(),
                );
                let inject = text::cat4(
                    "[SKILL: ",
                    skill_name.as_str(),
                    "]\n\n",
                    content.as_str(),
                );
                self.activate(skill_name, content);
                self.push_system(message, now);
                Some(TuiCommand::InjectSystem(inject))
            },
            None => {
                self.push_error(
                    text::cat5(
                        "Unknown skill \"",
                        name,
                        "\". Available: [",
                        available.as_str(),
                        "]",
                    ),
                    now,
                );
                None
            },
        }
    }

    fn run_new(&mut self, now: &str) -> (r: Option<TuiCommand>)
        ensures
            (final(self)@, messages::command_view(r)) == on_new(old(self)@, now@),
    {
        reveal(app::app_view);
        let save_as = text::clone_opt(&self.conversation_title);
        self.conversation_title = None;
        self.messages = Vec::new();
        push_message(
            &mut self.messages,
            ChatMessage::System {
                content: "New conversation started (system prompt preserved).".to_owned(),
                timestamp: now.to_owned(),
            },
        );
        assert(self@.messages =~= on_new(old(self)@, now@).0.messages);
        Some(TuiCommand::ClearConversation { save_as })
    }

    fn set_plan(&mut self, on: bool, wants_dir: bool)
        ensures
            final(self)@ == (AppView {
                plan_active: on,
                needs_plan_dir: old(self)@.needs_plan_dir || wants_dir,
                ..old(self)@
            }),
    {
        reveal(app::app_view);
        self.plan_active = on;
        self.needs_plan_dir = self.needs_plan_dir || wants_dir;
    }

    fn plan_facts(&self) -> (r: (bool, String))
        ensures
            r.0 == self@.plan_active,
            r.1@ == self@.plan_file,
    {
        reveal(app::app_view);
        (self.plan_active, self.plan_file.clone())
    }

    fn submit_plan(&mut self, rest: &str, now: &str)
        ensures
            final(self)@ == (AppView {
                scroll_offset: 0,
                streaming: true,
                last_submitted_input: Some(rest@),
                ..old(self)@
            }).with_message(MessageView::User { content: rest@, timestamp: now@ }),
    {
        reveal(app::app_view);
        self.scroll_offset = 0;
        self.streaming = true;
        self.last_submitted_input = Some(rest.to_owned());
        push_message(
            &mut self.messages,
            ChatMessage::User { content: rest.to_owned(), timestamp: now.to_owned() },
        );
    }

    fn run_plan(&mut self, rest: &str, now: &str) -> (r: Option<TuiCommand>)
        ensures
            (final(self)@, messages::command_view(r)) == on_plan(old(self)@, rest@, now@),
    {
        let (was_active, plan_file) = self.plan_facts();
        let on = if rest.is_empty() {
            !was_active
        } else {
            true
        };
        self.set_plan(on, on && !was_active);
        if on && !was_active {
            self.push_system(
                text::cat3(
                    "Plan mode activated. Plan file: ",
                    plan_file.as_str(),
                    "\nUse /plan again to deactivate, or /approve to exit plan mode.",
                ),
                now,
            );
        } else if !on {
            self.push_system("Plan mode deactivated. Full access restored.".to_owned(), now);
        }
        if rest.is_empty() {
            None
        } else {
            self.submit_plan(rest, now);
            Some(TuiCommand::RunAgent(rest.to_owned()))
        }
    }

    fn run_approve(&mut self, now: &str) -> (r: Option<TuiCommand>)
        ensures
            (final(self)@, messages::command_view(r)) == on_approve(old(self)@, now@),
    {
        let (active, plan_file) = self.plan_facts();
        if active {
            Some(TuiCommand::ArchivePlan)
        } else {
            self.push_system(
                "Not in plan mode. Use /plan first to enter plan mode.".to_owned(),
                now,
            );
            None
        }
    }

    fn quit(&mut self)
        ensures
            final(self)@ == (AppView { should_quit: true, ..old(self)@ }),
    {
        reveal(app::app_view);
        self.should_quit = true;
    }

    /// Shows the trace panel where it is hidden, and hides it where it is
    /// shown.
    pub fn toggle_debug(&mut self)
        ensures
            final(self)@ == (AppView { debug: old(self)@.debug.toggled(), ..old(self)@ }),
    {
        reveal(app::app_view);
        self.debug.toggle();
    }

    fn tool_list(&self) -> (r: String)
        ensures
            r@ == tool_list(self@.tool_names),
    {
        reveal(app::app_view);
        tool_list_of(&self.tool_names)
    }

    fn full_init_prompt(&self, rest: &str) -> (r: String)
        ensures
            r@ == init_prompt(self@.init_prompt, rest@),
    {
        reveal(app::app_view);
        if rest.is_empty() {
            self.init_prompt.clone()
        } else {
            text::cat3(
                self.init_prompt.as_str(),
                "\n\n### Additional instruction from the user\n\n",
                rest,
            )
        }
    }

    /// The platform.
    pub fn get_platform(&self) -> (r: Platform)
        ensures
            r == self@.platform,
    {
        reveal(app::app_view);
        self.platform
    }

    /// Runs an input that is a slash command; `None` where it is none.
    pub fn handle_slash_command(&mut self, input: &str, facts: &Facts) -> (r: Option<
        Option<TuiCommand>,
    >)
        ensures
            match r {
                Some(cmd) => on_slash(old(self)@, input@, facts@) == Some(
                    (final(self)@, messages::command_view(cmd)),
                ),
                None => on_slash(old(self)@, input@, facts@) is None && final(self)@ == old(self)@,
            },
    {
        let (cmd, rest) = split_command_of(input);
        let now = facts.timestamp.as_str();
        if text::same_text(cmd.as_str(), "/save") {
            return Some(self.run_save(rest.as_str(), now));
        }
        if text::same_text(cmd.as_str(), "/resume") {
            if rest.as_str().is_empty() {
                return Some(Some(TuiCommand::ListThreads));
            }
            return Some(Some(TuiCommand::LoadConversation(rest)));
        }
        if text::same_text(cmd.as_str(), "/skill") {
            return Some(self.run_skill(rest.as_str(), now));
        }
        if text::same_text(cmd.as_str(), "/exit") {
            self.quit();
            return Some(Some(TuiCommand::Exit));
        }
        if text::same_text(cmd.as_str(), "/new") {
            return Some(self.run_new(now));
        }
        if text::same_text(cmd.as_str(), "/plan") {
            return Some(self.run_plan(rest.as_str(), now));
        }
        if text::same_text(cmd.as_str(), "/approve") {
            return Some(self.run_approve(now));
        }
        if text::same_text(cmd.as_str(), "/threads") {
            return Some(Some(TuiCommand::ListThreads));
        }
        if text::same_text(cmd.as_str(), "/stats") {
            let content = text::cat4(
                "Messages: ",
                text::decimal_of(facts.memory_len as u64).as_str(),
                "  |  Characters: ",
                text::decimal_of(facts.memory_chars as u64).as_str(),
            );
            self.push_system(content, now);
            return Some(None);
        }
        if text::same_text(cmd.as_str(), "/tools") {
            let content = self.tool_list();
            self.push_system(content, now);
            return Some(None);
        }
        if text::same_text(cmd.as_str(), "/init") {
            let prompt = self.full_init_prompt(rest.as_str());
            self.push_system(
                "Initializing project documentation…\nI'll explore the codebase, ask a few questions, and create or update LOOMIS.md.".to_owned(),
                now,
            );
            return Some(Some(TuiCommand::RunAgent(prompt)));
        }
        if text::same_text(cmd.as_str(), "/debug") {
            self.toggle_debug();
            return Some(None);
        }
        if text::same_text(cmd.as_str(), "/trace-save") {
            return Some(Some(TuiCommand::SaveTrace));
        }
        if text::same_text(cmd.as_str(), "/help") {
            let platform = self.get_platform();
            self.push_system(help_text(platform), now);
            return Some(None);
        }
        None
    }
}

/// Every command of the table is recognised, whatever follows its name, and
/// is not taken for a message.
pub proof fn law_listed_commands_are_recognised(a: AppView, input: Seq<char>, i: int, f: FactsView)
    requires
        0 <= i < messages::command_table().len(),
        split_command(input).0 == "/"@ + messages::command_table()[i].name,
    ensures
        on_slash(a, input, f) is Some,
{
    reveal_strlit("/");
    reveal_strlit("exit");
    reveal_strlit("/exit");
    reveal_strlit("new");
    reveal_strlit("/new");
    reveal_strlit("init");
    reveal_strlit("/init");
    reveal_strlit("plan");
    reveal_strlit("/plan");
    reveal_strlit("approve");
    reveal_strlit("/approve");
    reveal_strlit("save");
    reveal_strlit("/save");
    reveal_strlit("resume");
    reveal_strlit("/resume");
    reveal_strlit("threads");
    reveal_strlit("/threads");
    reveal_strlit("stats");
    reveal_strlit("/stats");
    reveal_strlit("tools");
    reveal_strlit("/tools");
    reveal_strlit("skill");
    reveal_strlit("/skill");
    reveal_strlit("debug");
    reveal_strlit("/debug");
    reveal_strlit("trace-save");
    reveal_strlit("/trace-save");
    reveal_strlit("help");
    reveal_strlit("/help");
    assert("/"@ + "exit"@ =~= "/exit"@);
    assert("/"@ + "new"@ =~= "/new"@);
    assert("/"@ + "init"@ =~= "/init"@);
    assert("/"@ + "plan"@ =~= "/plan"@);
    assert("/"@ + "approve"@ =~= "/approve"@);
    assert("/"@ + "save"@ =~= "/save"@);
    assert("/"@ + "resume"@ =~= "/resume"@);
    assert("/"@ + "threads"@ =~= "/threads"@);
    assert("/"@ + "stats"@ =~= "/stats"@);
    assert("/"@ + "tools"@ =~= "/tools"@);
    assert("/"@ + "skill"@ =~= "/skill"@);
    assert("/"@ + "debug"@ =~= "/debug"@);
    assert("/"@ + "trace-save"@ =~= "/trace-save"@);
    assert("/"@ + "help"@ =~= "/help"@);
}

/// `/debug` shows the trace panel where it is hidden, and hides it where it
/// is shown: it undoes itself.
pub proof fn law_debug_toggles(a: AppView, f: FactsView)
    ensures
        on_slash(a, "/debug"@, f) matches Some((b, c)) && b.debug.visible != a.debug.visible
            && on_slash(b, "/debug"@, f) == Some((a, c)),
{
    reveal_strlit("/debug");
    reveal_with_fuel(text::first_space, 7);
    let s = "/debug"@;
    assert(text::first_space(s) == 6);
    reveal_strlit("/save");
    reveal_strlit("/resume");
    reveal_strlit("/skill");
    reveal_strlit("/exit");
    reveal_strlit("/new");
    reveal_strlit("/plan");
    reveal_strlit("/approve");
    reveal_strlit("/threads");
    reveal_strlit("/stats");
    reveal_strlit("/tools");
    reveal_strlit("/init");
    assert(s[1] != "/save"@[1] && s[1] != "/skill"@[1] && s[1] != "/exit"@[1] && s[1]
        != "/plan"@[1] && s[1] != "/stats"@[1] && s[1] != "/tools"@[1] && s[1] != "/init"@[1]);
    let b = AppView { debug: a.debug.toggled(), ..a };
    assert(b.debug.toggled() == a.debug);
}

} // verus!
