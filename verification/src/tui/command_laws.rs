//! What each slash command does, stated on what the user types.

use vstd::prelude::*;
use crate::text;
use crate::tui::app::AppView;
use crate::tui::messages::{CommandView, MessageView};
use crate::tui::slash::{self, on_slash, split_command, FactsView};

verus! {

/// Whether a text is a word: not empty, and without white space.
pub open spec fn is_word(s: Seq<char>) -> bool {
    s.len() > 0 && forall|i: int| 0 <= i < s.len() ==> !text::is_space(#[trigger] s[i])
}

/// A command with an argument, and white space between and behind them.
pub open spec fn with_argument(
    cmd: Seq<char>,
    gap: Seq<char>,
    w: Seq<char>,
    trail: Seq<char>,
) -> Seq<char> {
    cmd + gap + w + trail
}

/// Whether white space separates a command from an argument, which has none
/// at its ends.
pub open spec fn is_argument(gap: Seq<char>, w: Seq<char>, trail: Seq<char>) -> bool {
    &&& gap.len() > 0
    &&& text::is_blank(gap)
    &&& w.len() > 0
    &&& text::is_bare(w)
    &&& text::is_blank(trail)
}

proof fn lemma_words()
    ensures
        "/save"@ != "/resume"@,
        "/save"@ != "/skill"@,
        "/save"@ != "/exit"@,
        "/save"@ != "/new"@,
        "/save"@ != "/plan"@,
        "/save"@ != "/approve"@,
        "/save"@ != "/threads"@,
        "/save"@ != "/stats"@,
        "/save"@ != "/tools"@,
        "/save"@ != "/init"@,
        "/save"@ != "/debug"@,
        "/save"@ != "/trace-save"@,
        "/save"@ != "/help"@,
        "/resume"@ != "/skill"@,
        "/resume"@ != "/exit"@,
        "/resume"@ != "/new"@,
        "/resume"@ != "/plan"@,
        "/resume"@ != "/approve"@,
        "/resume"@ != "/threads"@,
        "/resume"@ != "/stats"@,
        "/resume"@ != "/tools"@,
        "/resume"@ != "/init"@,
        "/resume"@ != "/debug"@,
        "/resume"@ != "/trace-save"@,
        "/resume"@ != "/help"@,
        "/skill"@ != "/exit"@,
        "/skill"@ != "/new"@,
        "/skill"@ != "/plan"@,
        "/skill"@ != "/approve"@,
        "/skill"@ != "/threads"@,
        "/skill"@ != "/stats"@,
        "/skill"@ != "/tools"@,
        "/skill"@ != "/init"@,
        "/skill"@ != "/debug"@,
        "/skill"@ != "/trace-save"@,
        "/skill"@ != "/help"@,
        "/exit"@ != "/new"@,
        "/exit"@ != "/plan"@,
        "/exit"@ != "/approve"@,
        "/exit"@ != "/threads"@,
        "/exit"@ != "/stats"@,
        "/exit"@ != "/tools"@,
        "/exit"@ != "/init"@,
        "/exit"@ != "/debug"@,
        "/exit"@ != "/trace-save"@,
        "/exit"@ != "/help"@,
        "/new"@ != "/plan"@,
        "/new"@ != "/approve"@,
        "/new"@ != "/threads"@,
        "/new"@ != "/stats"@,
        "/new"@ != "/tools"@,
        "/new"@ != "/init"@,
        "/new"@ != "/debug"@,
        "/new"@ != "/trace-save"@,
        "/new"@ != "/help"@,
        "/plan"@ != "/approve"@,
        "/plan"@ != "/threads"@,
        "/plan"@ != "/stats"@,
        "/plan"@ != "/tools"@,
        "/plan"@ != "/init"@,
        "/plan"@ != "/debug"@,
        "/plan"@ != "/trace-save"@,
        "/plan"@ != "/help"@,
        "/approve"@ != "/threads"@,
        "/approve"@ != "/stats"@,
        "/approve"@ != "/tools"@,
        "/approve"@ != "/init"@,
        "/approve"@ != "/debug"@,
        "/approve"@ != "/trace-save"@,
        "/approve"@ != "/help"@,
        "/threads"@ != "/stats"@,
        "/threads"@ != "/tools"@,
        "/threads"@ != "/init"@,
        "/threads"@ != "/debug"@,
        "/threads"@ != "/trace-save"@,
        "/threads"@ != "/help"@,
        "/stats"@ != "/tools"@,
        "/stats"@ != "/init"@,
        "/stats"@ != "/debug"@,
        "/stats"@ != "/trace-save"@,
        "/stats"@ != "/help"@,
        "/tools"@ != "/init"@,
        "/tools"@ != "/debug"@,
        "/tools"@ != "/trace-save"@,
        "/tools"@ != "/help"@,
        "/init"@ != "/debug"@,
        "/init"@ != "/trace-save"@,
        "/init"@ != "/help"@,
        "/debug"@ != "/trace-save"@,
        "/debug"@ != "/help"@,
        "/trace-save"@ != "/help"@,
        is_word("/save"@),
        is_word("/resume"@),
        is_word("/skill"@),
        is_word("/exit"@),
        is_word("/new"@),
        is_word("/plan"@),
        is_word("/approve"@),
        is_word("/threads"@),
        is_word("/stats"@),
        is_word("/tools"@),
        is_word("/init"@),
        is_word("/debug"@),
        is_word("/trace-save"@),
        is_word("/help"@),
{
    reveal_strlit("/save");
    assert("/save"@.len() == 5);
    reveal_strlit("/resume");
    assert("/resume"@.len() == 7);
    reveal_strlit("/skill");
    assert("/skill"@.len() == 6);
    reveal_strlit("/exit");
    assert("/exit"@.len() == 5);
    reveal_strlit("/new");
    assert("/new"@.len() == 4);
    reveal_strlit("/plan");
    assert("/plan"@.len() == 5);
    reveal_strlit("/approve");
    assert("/approve"@.len() == 8);
    reveal_strlit("/threads");
    assert("/threads"@.len() == 8);
    reveal_strlit("/stats");
    assert("/stats"@.len() == 6);
    reveal_strlit("/tools");
    assert("/tools"@.len() == 6);
    reveal_strlit("/init");
    assert("/init"@.len() == 5);
    reveal_strlit("/debug");
    assert("/debug"@.len() == 6);
    reveal_strlit("/trace-save");
    assert("/trace-save"@.len() == 11);
    reveal_strlit("/help");
    assert("/help"@.len() == 5);
    assert("/save"@[1] != "/exit"@[1]);
    assert("/save"@[1] != "/plan"@[1]);
    assert("/save"@[1] != "/init"@[1]);
    assert("/save"@[1] != "/help"@[1]);
    assert("/skill"@[2] != "/stats"@[2]);
    assert("/skill"@[1] != "/tools"@[1]);
    assert("/skill"@[1] != "/debug"@[1]);
    assert("/exit"@[1] != "/plan"@[1]);
    assert("/exit"@[1] != "/init"@[1]);
    assert("/exit"@[1] != "/help"@[1]);
    assert("/plan"@[1] != "/init"@[1]);
    assert("/plan"@[1] != "/help"@[1]);
    assert("/approve"@[1] != "/threads"@[1]);
    assert("/stats"@[1] != "/tools"@[1]);
    assert("/stats"@[1] != "/debug"@[1]);
    assert("/tools"@[1] != "/debug"@[1]);
    assert("/init"@[1] != "/help"@[1]);
}

proof fn lemma_argument(cmd: Seq<char>, gap: Seq<char>, w: Seq<char>, trail: Seq<char>)
    requires
        is_word(cmd),
        is_argument(gap, w, trail),
    ensures
        split_command(with_argument(cmd, gap, w, trail)) == (cmd, w),
{
    let s = with_argument(cmd, gap, w, trail);
    let n = cmd.len() as int;
    assert forall|i: int| 0 <= i < n implies !text::is_space(#[trigger] s[i]) by {
        assert(s[i] == cmd[i]);
    }
    assert(s[n] == gap[0]);
    text::lemma_first_space_is(s, n);
    let rest = gap.skip(1);
    assert forall|i: int| 0 <= i < rest.len() implies text::is_space(#[trigger] rest[i]) by {
        assert(rest[i] == gap[i + 1]);
    }
    assert(s.take(n) =~= cmd);
    assert(s.skip(n + 1) =~= rest + w + trail);
    text::law_trimming(rest, w, trail);
}

proof fn lemma_alone(cmd: Seq<char>)
    requires
        is_word(cmd),
    ensures
        split_command(cmd) == (cmd, Seq::<char>::empty()),
{
    text::lemma_first_space_is(cmd, cmd.len() as int);
}

/// `/save` with a name asks for the conversation to be saved under it and
/// changes nothing, unless the name has a control character or one that file
/// systems reserve: then a message says how it is used, and nothing is saved.
/// So it is without a name.
pub proof fn law_save(
    a: AppView,
    gap: Seq<char>,
    w: Seq<char>,
    trail: Seq<char>,
    f: FactsView,
)
    requires
        is_argument(gap, w, trail),
    ensures
        ({
            let legal = forall|i: int|
                0 <= i < w.len() ==> !(#[trigger] w[i] < ' ' || '\u{7f}' <= w[i] <= '\u{9f}' || w[i]
                    == '/' || w[i] == '\\' || w[i] == ':' || w[i] == '*' || w[i] == '?' || w[i]
                    == '"' || w[i] == '<' || w[i] == '>' || w[i] == '|');
            let r = on_slash(a, with_argument("/save"@, gap, w, trail), f);
            &&& legal ==> r == Some((a, Some(CommandView::SaveConversation(w))))
            &&& !legal ==> (r matches Some((b, c)) && c is None && b.messages.len()
                == a.messages.len() + 1)
        }),
        on_slash(a, "/save"@, f) matches Some((b, c)) && c is None && b.messages.len()
            == a.messages.len() + 1,
{
    lemma_words();
    lemma_argument("/save"@, gap, w, trail);
    lemma_alone("/save"@);
    let legal = forall|i: int|
        0 <= i < w.len() ==> !(#[trigger] w[i] < ' ' || '\u{7f}' <= w[i] <= '\u{9f}' || w[i] == '/'
            || w[i] == '\\' || w[i] == ':' || w[i] == '*' || w[i] == '?' || w[i] == '"' || w[i]
            == '<' || w[i] == '>' || w[i] == '|');
    assert(legal == slash::is_thread_name(w));
}

/// `/resume` with a name loads the conversation of that name and changes
/// nothing; without one, and so does `/threads`, it asks for the list.
pub proof fn law_resume(
    a: AppView,
    gap: Seq<char>,
    w: Seq<char>,
    trail: Seq<char>,
    f: FactsView,
)
    requires
        is_argument(gap, w, trail),
    ensures
        on_slash(a, with_argument("/resume"@, gap, w, trail), f) == Some(
            (a, Some(CommandView::LoadConversation(w))),
        ),
        on_slash(a, "/resume"@, f) == Some((a, Some(CommandView::ListThreads))),
        on_slash(a, "/threads"@, f) == Some((a, Some(CommandView::ListThreads))),
{
    lemma_words();
    lemma_argument("/resume"@, gap, w, trail);
    lemma_alone("/resume"@);
    lemma_alone("/threads"@);
}

/// `/exit` ends the program; the conversation stays as it is.
pub proof fn law_exit(a: AppView, f: FactsView)
    ensures
        on_slash(a, "/exit"@, f) matches Some((b, c)) && c == Some(CommandView::Exit)
            && b.should_quit && b.messages == a.messages,
{
    lemma_words();
    lemma_alone("/exit"@);
}

/// `/new` saves the conversation under its title, where it has one, clears
/// it, and leaves one message and no title.
pub proof fn law_new(a: AppView, f: FactsView)
    ensures
        on_slash(a, "/new"@, f) matches Some((b, c)) && c == Some(
            CommandView::ClearConversation { save_as: a.conversation_title },
        ) && b.messages.len() == 1 && b.messages[0] is System && b.conversation_title is None
            && b.plan_active == a.plan_active && b.history == a.history,
{
    lemma_words();
    lemma_alone("/new"@);
}

/// `/plan` turns plan mode on where it is off, and off where it is on, says so
/// and asks nothing of the program. With a text it is on afterwards, the text
/// is shown as the user's, and the agent runs on it.
pub proof fn law_plan(
    a: AppView,
    gap: Seq<char>,
    w: Seq<char>,
    trail: Seq<char>,
    f: FactsView,
)
    requires
        is_argument(gap, w, trail),
    ensures
        on_slash(a, "/plan"@, f) matches Some((b, c)) && c is None && b.plan_active
            != a.plan_active && b.messages.len() == a.messages.len() + 1 && (b.plan_active
            ==> b.needs_plan_dir) && b.streaming == a.streaming,
        on_slash(a, with_argument("/plan"@, gap, w, trail), f) matches Some((b, c)) && c == Some(
            CommandView::RunAgent(w),
        ) && b.plan_active && b.streaming && b.messages.last() == (MessageView::User {
            content: w,
            timestamp: f.now,
        }) && b.last_submitted_input == Some(w) && (!a.plan_active ==> b.needs_plan_dir),
{
    lemma_words();
    lemma_argument("/plan"@, gap, w, trail);
    lemma_alone("/plan"@);
}

/// `/approve` archives the plan in plan mode; else it only says that there is
/// none to approve.
pub proof fn law_approve(a: AppView, f: FactsView)
    ensures
        a.plan_active ==> on_slash(a, "/approve"@, f) == Some((a, Some(CommandView::ArchivePlan))),
        !a.plan_active ==> (on_slash(a, "/approve"@, f) matches Some((b, c)) && c is None
            && !b.plan_active && b.messages.len() == a.messages.len() + 1),
{
    lemma_words();
    lemma_alone("/approve"@);
}

/// Whether a command only adds a message of the system to the conversation.
pub open spec fn only_says(
    a: AppView,
    r: Option<(AppView, Option<CommandView>)>,
    content: Seq<char>,
    now: Seq<char>,
) -> bool {
    r == Some(
        (
            AppView {
                messages: a.messages.push(MessageView::System { content, timestamp: now }),
                ..a
            },
            None::<CommandView>,
        ),
    )
}

proof fn lemma_part_of_joined(parts: Seq<Seq<char>>, sep: Seq<char>, i: int)
    requires
        0 <= i < parts.len(),
    ensures
        text::contains_text(text::joined(parts, sep), parts[i]),
    decreases parts.len(),
{
    let all = text::joined(parts, sep);
    if parts.len() == 1 {
        assert(all.subrange(0, all.len() as int) =~= all);
        assert(text::occurs_at(all, parts[0], 0));
    } else {
        let front = text::joined(parts.drop_last(), sep);
        if i < parts.len() - 1 {
            lemma_part_of_joined(parts.drop_last(), sep, i);
            let k = choose|k: int| text::occurs_at(front, parts[i], k);
            assert(all.subrange(k, k + parts[i].len()) =~= front.subrange(k, k + parts[i].len()));
            assert(text::occurs_at(all, parts[i], k));
        } else {
            let at = (front.len() + sep.len()) as int;
            assert(all.subrange(at, at + parts[i].len()) =~= parts[i]);
            assert(text::occurs_at(all, parts[i], at));
        }
    }
}

proof fn lemma_part_of_part(s: Seq<char>, t: Seq<char>, p: Seq<char>, at: int)
    requires
        text::contains_text(s, t),
        text::occurs_at(t, p, at),
    ensures
        text::contains_text(s, p),
{
    let k = choose|k: int| text::occurs_at(s, t, k);
    assert(s.subrange(k + at, k + at + p.len()) =~= t.subrange(at, at + p.len())) by {
        assert(s.subrange(k, k + t.len()) == t);
    }
    assert(text::occurs_at(s, p, k + at));
}

/// `/stats` says how many messages and how many characters the memory has.
pub proof fn law_stats(a: AppView, f: FactsView)
    ensures
        only_says(
            a,
            on_slash(a, "/stats"@, f),
            "Messages: "@ + text::decimal(f.memory_len) + "  |  Characters: "@ + text::decimal(
                f.memory_chars,
            ),
            f.now,
        ),
{
    lemma_words();
    lemma_alone("/stats"@);
}

/// `/tools` names every tool.
pub proof fn law_tools(a: AppView, f: FactsView, i: int)
    requires
        0 <= i < a.tool_names.len(),
    ensures
        exists|content: Seq<char>| #[trigger]
            only_says(a, on_slash(a, "/tools"@, f), content, f.now) && text::contains_text(
                content,
                a.tool_names[i],
            ),
{
    lemma_words();
    lemma_alone("/tools"@);
    let names = a.tool_names;
    let lines = Seq::new(
        names.len(),
        |i: int| "  "@ + text::decimal((i + 1) as nat) + ". "@ + names[i],
    );
    let content = slash::tool_list(names);
    lemma_part_of_joined(lines, "\n"@, i);
    let head = "  "@ + text::decimal((i + 1) as nat) + ". "@;
    let at = head.len() as int;
    assert(lines[i] =~= head + names[i]);
    assert(lines[i].subrange(at, at + names[i].len()) =~= names[i]);
    lemma_part_of_part(content, lines[i], names[i], at);
    assert(only_says(a, on_slash(a, "/tools"@, f), content, f.now));
}

/// `/help` only shows a text; it asks nothing of the program.
pub proof fn law_help(a: AppView, f: FactsView)
    ensures
        exists|content: Seq<char>| #[trigger]
            only_says(a, on_slash(a, "/help"@, f), content, f.now),
{
    lemma_words();
    lemma_alone("/help"@);
    let content = text::joined(slash::help_lines(a.platform), "\n"@);
    assert(only_says(a, on_slash(a, "/help"@, f), content, f.now));
}

/// `/init` runs the agent on the prompt for it, with what the user added
/// behind it.
pub proof fn law_init(
    a: AppView,
    gap: Seq<char>,
    w: Seq<char>,
    trail: Seq<char>,
    f: FactsView,
)
    requires
        is_argument(gap, w, trail),
    ensures
        on_slash(a, "/init"@, f) matches Some((b, c)) && c == Some(
            CommandView::RunAgent(a.init_prompt),
        ) && b.messages.len() == a.messages.len() + 1,
        on_slash(a, with_argument("/init"@, gap, w, trail), f) matches Some((b, c)) && (c matches Some(
            CommandView::RunAgent(p),
        ) && text::begins_with(p, a.init_prompt) && text::finishes_with(p, w) && p.len()
            >= a.init_prompt.len() + w.len()),
{
    lemma_words();
    lemma_argument("/init"@, gap, w, trail);
    lemma_alone("/init"@);
    let p = slash::init_prompt(a.init_prompt, w);
    let n = a.init_prompt.len() as int;
    assert(p.subrange(0, n) =~= a.init_prompt);
    assert(p.subrange(p.len() - w.len(), p.len() as int) =~= w);
}

/// `/debug` shows or hides the trace panel, and `/trace-save` asks for the
/// trace to be exported; they change nothing else.
pub proof fn law_traces(a: AppView, f: FactsView)
    ensures
        on_slash(a, "/debug"@, f) matches Some((b, c)) && c is None && b.debug.visible
            == !a.debug.visible && b.debug.events == a.debug.events && b.messages == a.messages,
        on_slash(a, "/trace-save"@, f) == Some((a, Some(CommandView::SaveTrace))),
{
    lemma_words();
    lemma_alone("/debug"@);
    lemma_alone("/trace-save"@);
}

proof fn lemma_skill_found(skills: Seq<crate::tui::app::SkillView>, name: Seq<char>)
    ensures
        match slash::skill_by_name(skills, name) {
            Some(s) => s.name == name && skills.contains(s),
            None => forall|i: int| 0 <= i < skills.len() ==> (#[trigger] skills[i]).name != name,
        },
    decreases skills.len(),
{
    if skills.len() > 0 {
        let rest = skills.skip(1);
        lemma_skill_found(rest, name);
        if skills[0].name == name {
            assert(skills.contains(skills[0]));
        } else {
            match slash::skill_by_name(rest, name) {
                Some(s) => {
                    let k = choose|k: int| 0 <= k < rest.len() && rest[k] == s;
                    assert(skills[k + 1] == s);
                },
                None => {
                    assert forall|i: int| 0 <= i < skills.len() implies (#[trigger] skills[i]).name
                        != name by {
                        if i > 0 {
                            assert(rest[i - 1] == skills[i]);
                        }
                    }
                },
            }
        }
    }
}

proof fn lemma_activated(
    active: Seq<(Seq<char>, Seq<char>)>,
    name: Seq<char>,
    content: Seq<char>,
)
    ensures
        slash::activated(active, name, content).contains((name, content)),
        forall|i: int|
            0 <= i < active.len() && (#[trigger] active[i]).0 != name ==> slash::activated(
                active,
                name,
                content,
            ).contains(active[i]),
    decreases active.len(),
{
    let out = slash::activated(active, name, content);
    if active.len() == 0 {
        assert(out[0] == (name, content));
    } else if active[0].0 == name {
        assert(out[0] == (name, content));
        assert forall|i: int| 0 <= i < active.len() && (#[trigger] active[i]).0 != name implies out.contains(
            active[i],
        ) by {
            assert(out[i] == active[i]);
        }
    } else {
        let rest = active.skip(1);
        let more = slash::activated(rest, name, content);
        lemma_activated(rest, name, content);
        let k = choose|k: int| 0 <= k < more.len() && more[k] == (name, content);
        assert(out[k + 1] == (name, content));
        assert forall|i: int| 0 <= i < active.len() && (#[trigger] active[i]).0 != name implies out.contains(
            active[i],
        ) by {
            if i == 0 {
                assert(out[0] == active[0]);
            } else {
                assert(rest[i - 1] == active[i]);
                let j = choose|j: int| 0 <= j < more.len() && more[j] == active[i];
                assert(out[j + 1] == active[i]);
            }
        }
    }
}

/// `/skill` with the name of a skill loads it: its content reaches the model
/// and it is among the loaded ones, with those that were loaded before. With
/// another name nothing is loaded, and an error says so.
pub proof fn law_skill(
    a: AppView,
    gap: Seq<char>,
    w: Seq<char>,
    trail: Seq<char>,
    f: FactsView,
)
    requires
        is_argument(gap, w, trail),
    ensures
        ({
            let r = on_slash(a, with_argument("/skill"@, gap, w, trail), f);
            let known = exists|i: int| 0 <= i < a.skills.len() && (#[trigger] a.skills[i]).name == w;
            &&& known ==> exists|s: crate::tui::app::SkillView|
                #![trigger a.skills.contains(s)]
                a.skills.contains(s) && s.name == w && (r matches Some((b, c)) && (c matches Some(
                    CommandView::InjectSystem(p),
                ) && text::contains_text(p, s.content) && text::contains_text(p, w))
                    && b.active_skills.contains((w, s.content)) && (forall|i: int|
                    0 <= i < a.active_skills.len() && (#[trigger] a.active_skills[i]).0 != w
                        ==> b.active_skills.contains(a.active_skills[i])))
            &&& !known ==> (r matches Some((b, c)) && c is None && b.active_skills
                == a.active_skills && b.messages.len() == a.messages.len() + 1
                && b.messages.last() is Error)
        }),
{
    lemma_words();
    lemma_argument("/skill"@, gap, w, trail);
    lemma_skill_found(a.skills, w);
    match slash::skill_by_name(a.skills, w) {
        Some(s) => {
            lemma_activated(a.active_skills, s.name, s.content);
            let head = "[SKILL: "@;
            let mid = "]\n\n"@;
            let p = head + s.name + mid + s.content;
            let n = head.len() as int;
            let m = (head + s.name + mid).len() as int;
            assert(p.subrange(n, n + w.len()) =~= w);
            assert(text::occurs_at(p, w, n));
            assert(p.subrange(m, m + s.content.len()) =~= s.content);
            assert(text::occurs_at(p, s.content, m));
            let k = choose|k: int| 0 <= k < a.skills.len() && a.skills[k] == s;
            assert(a.skills[k].name == w);
            assert(a.skills.contains(s));
        },
        None => {},
    }
}

/// What is none of the commands is no command, however much it looks like
/// one.
pub proof fn law_other_words_are_no_commands(
    a: AppView,
    cmd: Seq<char>,
    gap: Seq<char>,
    w: Seq<char>,
    trail: Seq<char>,
    f: FactsView,
)
    requires
        is_word(cmd),
        is_argument(gap, w, trail),
        cmd != "/save"@ && cmd != "/resume"@ && cmd != "/skill"@ && cmd != "/exit"@ && cmd != "/new"@ && cmd != "/plan"@ && cmd != "/approve"@ && cmd != "/threads"@ && cmd != "/stats"@ && cmd != "/tools"@ && cmd != "/init"@ && cmd != "/debug"@ && cmd != "/trace-save"@ && cmd != "/help"@,
    ensures
        on_slash(a, cmd, f) is None,
        on_slash(a, with_argument(cmd, gap, w, trail), f) is None,
{
    lemma_argument(cmd, gap, w, trail);
    lemma_alone(cmd);
}

} // verus!
