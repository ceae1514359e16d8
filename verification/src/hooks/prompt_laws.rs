//! What is put before the model, stated on the messages and the texts.

use vstd::prelude::*;
use crate::compact;
use crate::hooks::profile_hook::{self, Count, ProfileView, SynthesisUpdate, ToolStats};
use crate::hooks::skill_hook;
use crate::hooks::system_prompt_hook::{self, CommandOutput, RulesFile};
use crate::json::{self, FieldView, ParsedView};
use crate::memory::{self, RecordView, Role};
use crate::text;
use crate::text_laws;
use crate::tui::app::SkillView;

verus! {

// ── Messages ────────────────────────────────────────────────────────────

/// Whether each message is one of the system.
pub open spec fn are_system(v: Seq<RecordView>) -> bool {
    forall|i: int| 0 <= i < v.len() ==> (#[trigger] v[i]).role == Role::System
}

/// A message is put behind the leading messages of the system, before the
/// first of the talk.
pub proof fn law_put_before_the_talk(a: Seq<RecordView>, b: Seq<RecordView>, m: RecordView)
    requires
        are_system(a),
        b.len() == 0 || b[0].role != Role::System,
    ensures
        memory::before_history(a + b, m) == a + seq![m] + b,
{
    lemma_block(a, b);
    assert((a + b).insert(a.len() as int, m) =~= a + seq![m] + b);
}

proof fn lemma_block(a: Seq<RecordView>, b: Seq<RecordView>)
    requires
        are_system(a),
        b.len() == 0 || b[0].role != Role::System,
    ensures
        memory::system_block(a + b) == a.len(),
    decreases a.len(),
{
    let all = a + b;
    if a.len() == 0 {
        assert(all =~= b);
    } else {
        assert(all[0] == a[0]);
        assert(all.skip(1) =~= a.skip(1) + b);
        assert(are_system(a.skip(1))) by {
            assert forall|i: int| 0 <= i < a.skip(1).len() implies (#[trigger] a.skip(1)[i]).role
                == Role::System by {
                assert(a.skip(1)[i] == a[i + 1]);
            }
        }
        lemma_block(a.skip(1), b);
    }
}

/// A message leaves where it is one of the system that begins with the marker,
/// and stays in its place else.
pub proof fn law_marked_messages_leave(
    a: Seq<RecordView>,
    m: RecordView,
    b: Seq<RecordView>,
    marker: Seq<char>,
)
    ensures
        ({
            let gone = m.role == Role::System && m.content.len() >= marker.len() && m.content.take(
                marker.len() as int,
            ) == marker;
            let rest = |v: Seq<RecordView>| memory::without_marked(v, marker);
            &&& gone ==> rest(a + seq![m] + b) == rest(a) + rest(b)
            &&& !gone ==> rest(a + seq![m] + b) == rest(a) + seq![m] + rest(b)
        }),
{
    let none = Seq::<RecordView>::empty();
    lemma_without_add(a + seq![m], b, marker);
    lemma_without_add(a, seq![m], marker);
    assert(seq![m].drop_last() =~= none);
    assert(memory::without_marked(none, marker) =~= none);
    assert(m.content.take(marker.len() as int) =~= m.content.subrange(0, marker.len() as int));
    assert(none.push(m) =~= seq![m]);
    assert(memory::without_marked(a, marker) + none =~= memory::without_marked(a, marker));
}

proof fn lemma_without_add(a: Seq<RecordView>, b: Seq<RecordView>, marker: Seq<char>)
    ensures
        memory::without_marked(a + b, marker) == memory::without_marked(a, marker)
            + memory::without_marked(b, marker),
    decreases b.len(),
{
    if b.len() == 0 {
        assert(a + b =~= a);
        assert(memory::without_marked(a, marker) + b =~= memory::without_marked(a, marker));
    } else {
        let f = b.drop_last();
        assert((a + b).drop_last() =~= a + f);
        assert((a + b).last() == b.last());
        lemma_without_add(a, f, marker);
        assert(memory::without_marked(a + b, marker) =~= memory::without_marked(a, marker)
            + memory::without_marked(b, marker));
    }
}

/// The messages of the active skills stand behind the leading messages of the
/// system, in the order of the skills, each with its name and its content.
pub proof fn law_skills_are_shown(
    a: Seq<RecordView>,
    b: Seq<RecordView>,
    active: Seq<(Seq<char>, Seq<char>)>,
)
    requires
        are_system(a),
        b.len() == 0 || b[0].role != Role::System,
    ensures
        ({
            let w = skill_hook::with_skills(a + b, active);
            &&& w.len() == a.len() + active.len() + b.len()
            &&& w.take(a.len() as int) == a
            &&& w.skip((a.len() + active.len()) as int) == b
            &&& forall|i: int|
                0 <= i < active.len() ==> (#[trigger] w[a.len() + i]).role == Role::System
                    && text::begins_with(w[a.len() + i].content, "[SKILL:"@ + seq![' '] + active[i].0)
                    && text::finishes_with(w[a.len() + i].content, active[i].1)
        }),
{
    lemma_with_skills(a, b, active);
    let ms = messages_of(active);
    let w = skill_hook::with_skills(a + b, active);
    assert(w.take(a.len() as int) =~= a);
    assert(w.skip((a.len() + active.len()) as int) =~= b);
    assert forall|i: int| 0 <= i < active.len() implies (#[trigger] w[a.len() + i]).role
        == Role::System && text::begins_with(
        w[a.len() + i].content,
        "[SKILL:"@ + seq![' '] + active[i].0,
    ) && text::finishes_with(w[a.len() + i].content, active[i].1) by {
        assert(w[a.len() + i] == ms[i]);
        let s = ms[i].content;
        reveal_strlit(" ");
        assert(" "@ =~= seq![' ']);
        let head = "[SKILL:"@ + seq![' '] + active[i].0;
        assert(s.subrange(0, head.len() as int) =~= head);
        assert(s.subrange(s.len() - active[i].1.len(), s.len() as int) =~= active[i].1);
    }
}

spec fn messages_of(active: Seq<(Seq<char>, Seq<char>)>) -> Seq<RecordView> {
    Seq::new(active.len(), |i: int| skill_hook::skill_message(active[i].0, active[i].1))
}

proof fn lemma_with_skills(
    a: Seq<RecordView>,
    b: Seq<RecordView>,
    active: Seq<(Seq<char>, Seq<char>)>,
)
    requires
        are_system(a),
        b.len() == 0 || b[0].role != Role::System,
    ensures
        skill_hook::with_skills(a + b, active) == a + messages_of(active) + b,
    decreases active.len(),
{
    if active.len() == 0 {
        assert(a + messages_of(active) + b =~= a + b);
    } else {
        let f = active.drop_last();
        lemma_with_skills(a, b, f);
        let m = skill_hook::skill_message(active.last().0, active.last().1);
        let head = a + messages_of(f);
        assert(are_system(head));
        law_put_before_the_talk(head, b, m);
        assert(head + seq![m] + b =~= a + messages_of(active) + b);
    }
}

// ── The summary of a conversation ───────────────────────────────────────

/// A transcript has the messages in their order, each behind the one who
/// wrote it, with an empty line between neighbours.
pub proof fn law_transcripts(ms: Seq<RecordView>, m: RecordView)
    ensures
        ({
            let who = match m.role {
                Role::System => "[System]: "@,
                Role::User => "[User]: "@,
                Role::Assistant => "[Assistant]: "@,
                Role::Tool => "[Tool]: "@,
            };
            &&& compact::transcript(Seq::empty()).len() == 0
            &&& compact::transcript(seq![m]) == who + m.content
            &&& ms.len() > 0 ==> compact::transcript(ms.push(m)) == compact::transcript(ms)
                + seq!['\n', '\n'] + who + m.content
            &&& text::finishes_with(compact::summary_prompt(ms), compact::transcript(ms))
        }),
{
    reveal_strlit("\n\n");
    assert("\n\n"@ =~= seq!['\n', '\n']);
    reveal_strlit("[");
    reveal_strlit("]: ");
    reveal_strlit("System");
    reveal_strlit("User");
    reveal_strlit("Assistant");
    reveal_strlit("Tool");
    reveal_strlit("[System]: ");
    reveal_strlit("[User]: ");
    reveal_strlit("[Assistant]: ");
    reveal_strlit("[Tool]: ");
    assert("["@ + "System"@ + "]: "@ =~= "[System]: "@);
    assert("["@ + "User"@ + "]: "@ =~= "[User]: "@);
    assert("["@ + "Assistant"@ + "]: "@ =~= "[Assistant]: "@);
    assert("["@ + "Tool"@ + "]: "@ =~= "[Tool]: "@);
    let entry = |m: RecordView| compact::transcript_entry(m);
    let one = compact::transcript_entry(m);
    assert(seq![m].map_values(entry) =~= seq![one]);
    assert(ms.push(m).map_values(entry) =~= ms.map_values(entry) + seq![one]);
    assert(Seq::<RecordView>::empty().map_values(entry) =~= Seq::<Seq<char>>::empty());
    text_laws::law_joining(ms.map_values(entry), seq![one], one, "\n\n"@);
    if ms.len() > 0 {
        let who = match m.role {
            Role::System => "[System]: "@,
            Role::User => "[User]: "@,
            Role::Assistant => "[Assistant]: "@,
            Role::Tool => "[Tool]: "@,
        };
        assert(compact::transcript(ms.push(m)) =~= compact::transcript(ms) + seq!['\n', '\n'] + who
            + m.content);
    }
    let p = compact::summary_prompt(ms);
    let t = compact::transcript(ms);
    assert(p.subrange(p.len() - t.len(), p.len() as int) =~= t);
}

// ── Arguments ───────────────────────────────────────────────────────────

/// A field of an object is found by its name, the first one where there are
/// several.
pub proof fn law_fields_are_found(
    a: Seq<(Seq<char>, FieldView)>,
    key: Seq<char>,
    value: FieldView,
    b: Seq<(Seq<char>, FieldView)>,
)
    requires
        forall|i: int| 0 <= i < a.len() ==> (#[trigger] a[i]).0 != key,
    ensures
        json::lookup(a, key) is None,
        json::lookup(a + seq![(key, value)] + b, key) == Some(value),
    decreases a.len(),
{
    let all = a + seq![(key, value)] + b;
    if a.len() == 0 {
        assert(all[0] == (key, value));
    } else {
        let t = a.skip(1);
        assert forall|i: int| 0 <= i < t.len() implies (#[trigger] t[i]).0 != key by {
            assert(t[i] == a[i + 1]);
        }
        assert(all[0] == a[0]);
        assert(all.skip(1) =~= t + seq![(key, value)] + b);
        law_fields_are_found(t, key, value, b);
    }
}

/// An argument is the text of its field; arguments that are no JSON stand for
/// themselves, and all others for nothing.
pub proof fn law_arguments(
    arguments: Seq<char>,
    a: Seq<(Seq<char>, FieldView)>,
    key: Seq<char>,
    value: Seq<char>,
    b: Seq<(Seq<char>, FieldView)>,
)
    requires
        forall|i: int| 0 <= i < a.len() ==> (#[trigger] a[i]).0 != key,
    ensures
        json::argument(
            ParsedView::Object(a + seq![(key, FieldView::Text(value))] + b),
            arguments,
            key,
        ) == value,
        json::argument(ParsedView::Object(a), arguments, key).len() == 0,
        json::argument(ParsedView::Other, arguments, key).len() == 0,
        json::argument(ParsedView::Invalid, arguments, key) == arguments,
{
    law_fields_are_found(a, key, FieldView::Text(value), b);
}

// ── The profile ─────────────────────────────────────────────────────────

/// An input with a Chinese character tells the language; another one leaves
/// what is known of it.
pub proof fn law_languages_are_noticed(known: Seq<char>, a: Seq<char>, c: char, b: Seq<char>)
    ensures
        '\u{4e00}' <= c <= '\u{9fff}' ==> profile_hook::noticed_language(known, a + seq![c] + b)
            == "zh-CN"@,
        (forall|i: int| 0 <= i < a.len() ==> !('\u{4e00}' <= #[trigger] a[i] <= '\u{9fff}'))
            ==> profile_hook::noticed_language(known, a) == known,
{
    assert((a + seq![c] + b)[a.len() as int] == c);
}

/// A call, a success and a failure are each counted once, and nothing else
/// with them.
pub proof fn law_uses_are_counted(s: ToolStats)
    requires
        s.total_calls < u64::MAX,
        s.successes < u64::MAX,
        s.failures < u64::MAX,
    ensures
        profile_hook::counted(s, Count::Call) == (ToolStats {
            total_calls: (s.total_calls + 1) as u64,
            successes: s.successes,
            failures: s.failures,
        }),
        profile_hook::counted(s, Count::Success) == (ToolStats {
            total_calls: s.total_calls,
            successes: (s.successes + 1) as u64,
            failures: s.failures,
        }),
        profile_hook::counted(s, Count::Failure) == (ToolStats {
            total_calls: s.total_calls,
            successes: s.successes,
            failures: (s.failures + 1) as u64,
        }),
{
}

/// A run counts as a session; after five of them the profile is looked over,
/// and the count begins anew.
pub proof fn law_sessions_are_counted(p: ProfileView, u: SynthesisUpdate, now: Seq<char>)
    requires
        p.last_synthesis_session <= p.total_sessions < u64::MAX,
    ensures
        ({
            let q = profile_hook::run_ended(p, now);
            &&& q.total_sessions == p.total_sessions + 1 && q.updated_at == now
            &&& q == (ProfileView { total_sessions: q.total_sessions, updated_at: now, ..p })
            &&& profile_hook::is_due(p) <==> p.total_sessions >= p.last_synthesis_session + 5
            &&& profile_hook::merged(p, u, now).last_synthesis_session == p.total_sessions
            &&& profile_hook::merged(p, u, now).total_sessions == p.total_sessions
        }),
{
}

/// What was found out replaces what was known of it, where anything was found.
pub proof fn law_findings_replace(p: ProfileView, u: SynthesisUpdate, now: Seq<char>)
    ensures
        ({
            let q = profile_hook::merged(p, u, now);
            &&& u.preferences@.len() > 0 ==> q.preferences == text::texts(u.preferences@)
            &&& u.avoidances@.len() > 0 ==> q.avoidances == text::texts(u.avoidances@)
            &&& u.expertise_signals@.len() > 0 ==> q.expertise_signals == text::texts(
                u.expertise_signals@,
            )
            &&& u.coding_conventions@.len() > 0 ==> q.coding_conventions == text::texts(
                u.coding_conventions@,
            )
            &&& q.verbosity == u.verbosity
            &&& u.language_preference@.len() > 0 ==> q.language_preference
                == u.language_preference@
            &&& u.language_preference@.len() == 0 ==> q.language_preference
                == p.language_preference
            &&& q.tool_stats == p.tool_stats && q.updated_at == now
        }),
{
}

/// What is looked over are the last messages of the user and the assistant, as
/// many as asked, newest first, each behind the one who wrote it; others are
/// passed over.
pub proof fn law_latest_talk(v: Seq<RecordView>, m: RecordView, n: nat)
    requires
        text::byte_len(m.content) <= 1000,
    ensures
        profile_hook::context_lines(v, 0).len() == 0,
        profile_hook::context_lines(Seq::empty(), n).len() == 0,
        m.role == Role::User ==> profile_hook::context_lines(v.push(m), n + 1) == seq![
            "[User]: "@ + m.content,
        ] + profile_hook::context_lines(v, n),
        m.role == Role::Assistant ==> profile_hook::context_lines(v.push(m), n + 1) == seq![
            "[Assistant]: "@ + m.content,
        ] + profile_hook::context_lines(v, n),
        m.role != Role::User && m.role != Role::Assistant ==> profile_hook::context_lines(
            v.push(m),
            n,
        ) == profile_hook::context_lines(v, n),
{
    reveal_strlit("[");
    reveal_strlit("]: ");
    reveal_strlit("User");
    reveal_strlit("Assistant");
    reveal_strlit("[User]: ");
    reveal_strlit("[Assistant]: ");
    assert("["@ + "User"@ + "]: "@ =~= "[User]: "@);
    assert("["@ + "Assistant"@ + "]: "@ =~= "[Assistant]: "@);
    assert(v.push(m).drop_last() =~= v);
    text_laws::law_cutting(m.content, 1000);
    assert(m.content.take(m.content.len() as int) =~= m.content);
    assert((n + 1 - 1) as nat == n);
}

proof fn lemma_last_char(s: Seq<char>, c: char, n: int)
    requires
        0 <= n < s.len(),
        s[n] == c,
        forall|i: int| n < i < s.len() ==> s[i] != c,
    ensures
        profile_hook::last_char(s, c) == n,
    decreases s.len(),
{
    if n < s.len() - 1 {
        lemma_last_char(s.drop_last(), c, n);
    }
}

/// In braces is what stands from the first opening brace to the last closing
/// one, the two included.
pub proof fn law_braces(a: Seq<char>, body: Seq<char>, b: Seq<char>)
    requires
        !a.contains('{'),
        !b.contains('}'),
    ensures
        profile_hook::braced(a + seq!['{'] + body + seq!['}'] + b) == Some(
            seq!['{'] + body + seq!['}'],
        ),
        profile_hook::braced(a) is None,
{
    let s = a + seq!['{'] + body + seq!['}'] + b;
    let close = (a.len() + 1 + body.len()) as int;
    text::lemma_first_char(s, '{');
    let k = text::first_char(s, '{');
    assert(s[a.len() as int] == '{');
    if k < a.len() {
        assert(s[k] == a[k]);
        assert(a.contains(a[k]));
    }
    assert(s[close] == '}');
    assert forall|i: int| close < i < s.len() implies s[i] != '}' by {
        assert(s[i] == b[i - close - 1]);
        assert(b.contains(b[i - close - 1]));
    }
    lemma_last_char(s, '}', close);
    assert(s.subrange(a.len() as int, close + 1) =~= seq!['{'] + body + seq!['}']);
    text::lemma_first_char(a, '{');
    let n = text::first_char(a, '{');
    if n < a.len() {
        assert(a.contains(a[n]));
    }
    lemma_last_is_inside(a, '}');
}

proof fn lemma_last_is_inside(s: Seq<char>, c: char)
    ensures
        -1 <= profile_hook::last_char(s, c) < s.len(),
    decreases s.len(),
{
    if s.len() > 0 {
        lemma_last_is_inside(s.drop_last(), c);
    }
}

/// Where the answer has a block of JSON, its content counts, without the white
/// space around; else what stands in braces.
pub proof fn law_json_is_found(a: Seq<char>, body: Seq<char>, b: Seq<char>)
    requires
        !a.contains('`'),
        !body.contains('`'),
    ensures
        profile_hook::json_object(a + "```json"@ + body + "```"@ + b) == Some(text::trimmed(body)),
        profile_hook::json_object(a) == profile_hook::braced(a),
{
    reveal_strlit("```json");
    reveal_strlit("```");
    let open = "```json"@;
    let close = "```"@;
    assert(open =~= seq!['`', '`', '`', 'j', 's', 'o', 'n']);
    assert(close =~= seq!['`', '`', '`']);
    let s = a + open + body + close + b;
    let n = a.len() as int;
    let k = n + 7 + body.len();
    assert(s.subrange(n, n + 7) =~= open);
    assert forall|i: int| 0 <= i < n implies !text::occurs_at(s, open, i) by {
        if text::occurs_at(s, open, i) {
            assert(s.subrange(i, i + 7)[0] == '`');
            assert(s[i] == a[i]);
            assert(a.contains(a[i]));
        }
    }
    lemma_first_at(s, open, 0, n);
    assert(s.subrange(k, k + 3) =~= close);
    assert forall|i: int| n + 7 <= i < k implies !text::occurs_at(s, close, i) by {
        if text::occurs_at(s, close, i) {
            assert(s.subrange(i, i + 3)[0] == '`');
            assert(s[i] == body[i - n - 7]);
            assert(body.contains(body[i - n - 7]));
        }
    }
    lemma_first_at(s, close, n + 7, k);
    assert(s.subrange(n + 7, k) =~= body);
    assert forall|i: int| 0 <= i < a.len() implies !text::occurs_at(a, open, i) by {
        if text::occurs_at(a, open, i) {
            assert(a.subrange(i, i + 7)[0] == '`');
            assert(a.contains(a[i]));
        }
    }
    lemma_nowhere(a, open, 0);
}

proof fn lemma_first_at(s: Seq<char>, p: Seq<char>, i: int, n: int)
    requires
        0 <= i <= n < s.len(),
        text::occurs_at(s, p, n),
        forall|j: int| i <= j < n ==> !text::occurs_at(s, p, j),
    ensures
        profile_hook::first_at(s, p, i) == n,
    decreases n - i,
{
    if i < n {
        assert(!text::occurs_at(s, p, i));
        lemma_first_at(s, p, i + 1, n);
    }
}

proof fn lemma_nowhere(s: Seq<char>, p: Seq<char>, i: int)
    requires
        0 <= i <= s.len(),
        forall|j: int| i <= j < s.len() ==> !text::occurs_at(s, p, j),
    ensures
        profile_hook::first_at(s, p, i) == s.len(),
    decreases s.len() - i,
{
    if i < s.len() {
        assert(!text::occurs_at(s, p, i));
        lemma_nowhere(s, p, i + 1);
    }
}

// ── The system prompt ───────────────────────────────────────────────────

/// The tools are listed in their order, each in back quotes.
pub proof fn law_tools_are_named(names: Seq<Seq<char>>, n: Seq<char>)
    ensures
        system_prompt_hook::tool_list(Seq::empty()).len() == 0,
        system_prompt_hook::tool_list(seq![n]) == seq!['`'] + n + seq!['`'],
        names.len() > 0 ==> system_prompt_hook::tool_list(names.push(n))
            == system_prompt_hook::tool_list(names) + seq![',', ' '] + (seq!['`'] + n + seq!['`']),
{
    reveal_strlit("`");
    reveal_strlit(", ");
    assert("`"@ =~= seq!['`']);
    assert(", "@ =~= seq![',', ' ']);
    let one = "`"@ + n + "`"@;
    let quoted = |v: Seq<Seq<char>>| Seq::new(v.len(), |i: int| "`"@ + v[i] + "`"@);
    assert(quoted(seq![n]) =~= seq![one]);
    assert(quoted(names.push(n)) =~= quoted(names) + seq![one]);
    text_laws::law_joining(quoted(names), seq![one], one, ", "@);
}

/// The skills are listed in their order, each with its name and what it is
/// for; the list says where there are none.
pub proof fn law_skills_are_named(skills: Seq<SkillView>, s: SkillView)
    ensures
        text::contains_text(system_prompt_hook::skill_list(Seq::empty()), "none available"@),
        system_prompt_hook::skill_list(seq![s]) == "- `"@ + s.name + "` — "@ + s.description,
        skills.len() > 0 ==> system_prompt_hook::skill_list(skills.push(s))
            == system_prompt_hook::skill_list(skills) + seq!['\n'] + ("- `"@ + s.name + "` — "@
            + s.description),
{
    reveal_strlit("\n");
    assert("\n"@ =~= seq!['\n']);
    reveal_strlit("  (none available. Define skills as .md files in .loomis/skills/)");
    reveal_strlit("none available");
    let none = system_prompt_hook::skill_list(Seq::empty());
    assert(none.subrange(3, 17) =~= "none available"@);
    assert(text::occurs_at(none, "none available"@, 3));
    let one = "- `"@ + s.name + "` — "@ + s.description;
    let lines = |v: Seq<SkillView>|
        Seq::new(v.len(), |i: int| "- `"@ + v[i].name + "` — "@ + v[i].description);
    assert(lines(seq![s]) =~= seq![one]);
    assert(lines(skills.push(s)) =~= lines(skills) + seq![one]);
    text_laws::law_joining(lines(skills), seq![one], one, "\n"@);
}

proof fn lemma_no_brace(s: Seq<char>, p: Seq<char>, i: int)
    requires
        p.len() > 0,
        p[0] == '{',
        0 <= i < s.len(),
        s[i] != '{',
    ensures
        !text::occurs_at(s, p, i),
{
    if text::occurs_at(s, p, i) {
        assert(s.subrange(i, i + p.len())[0] == s[i]);
    }
}

proof fn lemma_fill(a: Seq<char>, p: Seq<char>, b: Seq<char>, r: Seq<char>)
    requires
        p.len() > 0,
        p[0] == '{',
        !a.contains('{'),
    ensures
        text::replaced(a + p + b, p, r) == a + r + text::replaced(b, p, r),
{
    let s = a + p + b;
    assert forall|i: int| 0 <= i < a.len() implies !text::occurs_at(s, p, i) by {
        assert(s[i] == a[i]);
        assert(a.contains(a[i]));
        lemma_no_brace(s, p, i);
    }
    text_laws::law_replacing(a, p, b, r);
}

proof fn lemma_nothing_to_fill(a: Seq<char>, p: Seq<char>, r: Seq<char>)
    requires
        p.len() > 0,
        p[0] == '{',
        !a.contains('{'),
    ensures
        text::replaced(a, p, r) == a,
{
    assert forall|i: int| !text::occurs_at(a, p, i) by {
        if 0 <= i < a.len() {
            assert(a.contains(a[i]));
            lemma_no_brace(a, p, i);
        }
    }
    text_laws::law_replacing(a, p, a, r);
}

/// The prompt is its template with the lists of the tools and the skills in
/// their places, and all other text as it is.
pub proof fn law_template_is_filled(
    a: Seq<char>,
    b: Seq<char>,
    c: Seq<char>,
    names: Seq<Seq<char>>,
    skills: Seq<SkillView>,
)
    requires
        !a.contains('{'),
        !b.contains('{'),
        !c.contains('{'),
        !system_prompt_hook::tool_list(names).contains('{'),
    ensures
        system_prompt_hook::system_prompt(
            a + "{tool_list}"@ + b + "{skill_list}"@ + c,
            names,
            skills,
        ) == a + system_prompt_hook::tool_list(names) + b + system_prompt_hook::skill_list(skills)
            + c,
{
    reveal_strlit("{tool_list}");
    reveal_strlit("{skill_list}");
    let t = "{tool_list}"@;
    let k = "{skill_list}"@;
    let tools = system_prompt_hook::tool_list(names);
    let list = system_prompt_hook::skill_list(skills);
    let rest = b + k + c;
    assert(a + t + b + k + c =~= a + t + rest);
    lemma_fill(a, t, rest, tools);
    assert forall|i: int| !text::occurs_at(rest, t, i) by {
        if 0 <= i < rest.len() {
            if i < b.len() {
                assert(rest[i] == b[i]);
                assert(b.contains(b[i]));
                lemma_no_brace(rest, t, i);
            } else if i == b.len() {
                if text::occurs_at(rest, t, i) {
                    assert(rest.subrange(i, i + t.len())[1] == t[1]);
                    assert(rest[i + 1] == k[1]);
                }
            } else if i < b.len() + k.len() {
                assert(rest[i] == k[i - b.len()]);
                lemma_no_brace(rest, t, i);
            } else {
                assert(rest[i] == c[i - b.len() - k.len()]);
                assert(c.contains(c[i - b.len() - k.len()]));
                lemma_no_brace(rest, t, i);
            }
        }
    }
    text_laws::law_replacing(a, t, rest, tools);
    let half = a + tools + b;
    assert(!half.contains('{')) by {
        assert forall|i: int| 0 <= i < half.len() implies half[i] != '{' by {
            if i < a.len() {
                assert(a.contains(a[i]));
            } else if i < a.len() + tools.len() {
                assert(tools.contains(tools[i - a.len()]));
            } else {
                assert(b.contains(b[i - a.len() - tools.len()]));
            }
        }
    }
    assert(a + tools + rest =~= half + k + c);
    lemma_fill(half, k, c, list);
    lemma_nothing_to_fill(c, k, list);
}

/// In a repository the branch is named, with a word on whether anything is
/// uncommitted; elsewhere nothing is said.
pub proof fn law_repositories(branch: Option<CommandOutput>, status: Option<CommandOutput>)
    ensures
        ({
            let g = system_prompt_hook::git_text(branch, status);
            let known = branch is Some && branch->0.success && system_prompt_hook::printed(
                branch->0,
            ).len() > 0;
            let dirty = status is Some && system_prompt_hook::printed(status->0).len() > 0;
            &&& g is Some <==> known
            &&& g matches Some(s) ==> text::contains_text(
                s,
                system_prompt_hook::printed(branch->0),
            ) && text::finishes_with(
                s,
                if dirty {
                    "dirty"@
                } else {
                    "clean"@
                },
            )
        }),
{
    match system_prompt_hook::git_text(branch, status) {
        Some(s) => {
            let b = system_prompt_hook::printed(branch->0);
            let n = "branch `"@.len() as int;
            assert(s.subrange(n, n + b.len()) =~= b);
            assert(text::occurs_at(s, b, n));
            let word = if status is Some && system_prompt_hook::printed(status->0).len() > 0 {
                "dirty"@
            } else {
                "clean"@
            };
            assert(s.subrange(s.len() - word.len(), s.len() as int) =~= word);
        },
        None => {},
    }
}

/// Whether a file of rules has any.
pub open spec fn has_rules(f: RulesFile) -> bool {
    f.content is Some && !text::is_blank(f.content->0@)
}

proof fn lemma_has_rules(f: RulesFile)
    ensures
        system_prompt_hook::rules_of(f) is Some <==> has_rules(f),
{
    if f.content is Some {
        let c = f.content->0@;
        let none = Seq::<char>::empty();
        if text::is_blank(c) {
            assert(c + none + none =~= c);
            text::law_trimming(c, none, none);
        } else {
            text::lemma_trimmed_is_inside(c);
        }
    }
}

/// The rules of the project come from the first file that has any, under its
/// name, and whole where they are not too long.
pub proof fn law_first_rules_count(a: Seq<RulesFile>, f: RulesFile, b: Seq<RulesFile>)
    requires
        forall|i: int| 0 <= i < a.len() ==> !has_rules(#[trigger] a[i]),
    ensures
        system_prompt_hook::first_rules(a) is None,
        has_rules(f) ==> (system_prompt_hook::first_rules(a + seq![f] + b) matches Some(s)
            && text::begins_with(s, "## Project Rules ("@ + f.name@ + ")"@) && (text::byte_len(
            f.content->0@,
        ) <= 10_000 ==> text::finishes_with(s, f.content->0@))),
    decreases a.len(),
{
    let all = a + seq![f] + b;
    if a.len() == 0 {
        assert(all[0] == f);
        lemma_has_rules(f);
        if has_rules(f) {
            let s = system_prompt_hook::rules_of(f)->0;
            let c = f.content->0@;
            let head = "## Project Rules ("@ + f.name@ + ")"@;
            reveal_strlit(")");
            reveal_strlit(")\n\n");
            assert(s.subrange(0, head.len() as int) =~= head);
            if text::byte_len(c) <= 10_000 {
                assert(s.subrange(s.len() - c.len(), s.len() as int) =~= c);
            }
        }
    } else {
        let t = a.skip(1);
        assert forall|i: int| 0 <= i < t.len() implies !has_rules(#[trigger] t[i]) by {
            assert(t[i] == a[i + 1]);
        }
        assert(!has_rules(a[0]));
        lemma_has_rules(a[0]);
        assert(all[0] == a[0]);
        assert(all.skip(1) =~= t + seq![f] + b);
        law_first_rules_count(t, f, b);
    }
}

/// The files of the program itself come before those of others.
pub proof fn law_own_rules_come_first(others: Seq<Seq<char>>)
    ensures
        system_prompt_hook::rules_files(others).len() == others.len() + 2,
        system_prompt_hook::rules_files(others)[0] == "LOOMIS.md"@,
        system_prompt_hook::rules_files(others)[1] == "AGENTS.md"@,
        system_prompt_hook::rules_files(others).skip(2) == others,
{
    assert(system_prompt_hook::rules_files(others).skip(2) =~= others);
}

/// A conversation without a prompt gets it, what is known of the environment,
/// and the rules of the project, in this order, as messages of the system
/// behind what was there.
pub proof fn law_conversations_are_seeded(
    v: Seq<RecordView>,
    prompt: Seq<char>,
    environment: Seq<char>,
    rules: Option<Seq<char>>,
)
    requires
        forall|i: int|
            0 <= i < v.len() ==> !((#[trigger] v[i]).role == Role::System && text::begins_with(
                v[i].content,
                "[SYSPROMPT]"@,
            )),
    ensures
        ({
            let w = system_prompt_hook::seeded(v, prompt, environment, rules);
            let n = v.len() as int;
            &&& w.len() == n + (if rules is Some {
                3int
            } else {
                2
            })
            &&& w.take(n) == v
            &&& forall|i: int| n <= i < w.len() ==> (#[trigger] w[i]).role == Role::System
            &&& text::finishes_with(w[n].content, prompt)
            &&& text::finishes_with(w[n + 1].content, environment)
            &&& rules matches Some(s) ==> text::finishes_with(w[n + 2].content, s)
        }),
{
    let w = system_prompt_hook::seeded(v, prompt, environment, rules);
    assert(w.take(v.len() as int) =~= v);
    let ends = |s: Seq<char>| {
        let c = system_prompt_hook::marked(s).content;
        c.subrange(c.len() - s.len(), c.len() as int)
    };
    assert(ends(prompt) =~= prompt);
    assert(ends(environment) =~= environment);
    if rules is Some {
        assert(ends(rules->0) =~= rules->0);
    }
}

/// The summary is what the model wrote, and empty where it wrote nothing; a
/// call that failed is an error with what went wrong.
pub proof fn law_summaries(s: String, e: String)
    ensures
        compact::summary_of(Ok(Some(s))) == Ok::<Seq<char>, compact::MemoryErrorView>(s@),
        compact::summary_of(Ok(None)) matches Ok(t) && t.len() == 0,
        compact::summary_of(Err(e)) matches Err(compact::MemoryErrorView::SummariserFailed(m))
            && text::finishes_with(m, e@),
{
    reveal_strlit("");
    let m = "LLM call failed: "@ + e@;
    assert(m.subrange(m.len() - e@.len(), m.len() as int) =~= e@);
}

/// What is known of the environment names the system, the machine, the shell,
/// the workspace and the day, and the repository where there is one.
pub proof fn law_environments(e: system_prompt_hook::Environment)
    ensures
        ({
            let s = system_prompt_hook::environment_text(e);
            &&& text::begins_with(s, "## Environment\n\n- Platform: "@ + e.os@ + " ("@ + e.arch@)
            &&& text::contains_text(s, "\n- OS version: "@ + e.os_version@)
            &&& text::contains_text(s, "\n- Shell: "@ + e.shell@)
            &&& text::contains_text(s, "\n- Workspace: "@ + e.workspace@)
            &&& text::contains_text(s, "\n- Date: "@ + e.date@)
            &&& e.git matches Some(g) ==> text::finishes_with(s, "\n- Git: "@ + g@)
        }),
{
    let s = system_prompt_hook::environment_text(e);
    reveal_strlit(")\n- OS version: ");
    reveal_strlit("\n- OS version: ");
    assert(")\n- OS version: "@ =~= seq![')'] + "\n- OS version: "@);
    let head = "## Environment\n\n- Platform: "@ + e.os@ + " ("@ + e.arch@;
    let version = "\n- OS version: "@ + e.os_version@;
    let shell = "\n- Shell: "@ + e.shell@;
    let place = "\n- Workspace: "@ + e.workspace@;
    let day = "\n- Date: "@ + e.date@;
    let git = match e.git {
        Some(g) => "\n- Git: "@ + g@,
        None => Seq::empty(),
    };
    assert(s =~= head + seq![')'] + version + shell + place + day + git);
    assert(s.subrange(0, head.len() as int) =~= head);
    let a = head.len() as int + 1;
    assert(s.subrange(a, a + version.len()) =~= version);
    assert(text::occurs_at(s, version, a));
    let b = a + version.len();
    assert(s.subrange(b, b + shell.len()) =~= shell);
    assert(text::occurs_at(s, shell, b));
    let c = b + shell.len();
    assert(s.subrange(c, c + place.len()) =~= place);
    assert(text::occurs_at(s, place, c));
    let d = c + place.len();
    assert(s.subrange(d, d + day.len()) =~= day);
    assert(text::occurs_at(s, day, d));
    assert(s.subrange(s.len() - git.len(), s.len() as int) =~= git);
}

/// The version of Windows is what the first command that succeeded printed.
pub proof fn law_windows_versions(
    a: Seq<Option<CommandOutput>>,
    out: CommandOutput,
    b: Seq<Option<CommandOutput>>,
    os: Seq<char>,
)
    requires
        forall|i: int|
            0 <= i < a.len() ==> ((#[trigger] a[i]) is None || !a[i]->0.success
                || system_prompt_hook::printed(a[i]->0).len() == 0),
    ensures
        system_prompt_hook::windows_version(a, os) == os,
        out.success && system_prompt_hook::printed(out).len() > 0
            ==> system_prompt_hook::windows_version(a + seq![Some(out)] + b, os)
            == system_prompt_hook::printed(out),
    decreases a.len(),
{
    let all = a + seq![Some(out)] + b;
    if a.len() == 0 {
        assert(all[0] == Some(out));
    } else {
        let t = a.skip(1);
        assert forall|i: int| 0 <= i < t.len() implies ((#[trigger] t[i]) is None
            || !t[i]->0.success || system_prompt_hook::printed(t[i]->0).len() == 0) by {
            assert(t[i] == a[i + 1]);
        }
        assert(all[0] == a[0]);
        assert(a[0] is None || !a[0]->0.success || system_prompt_hook::printed(a[0]->0).len() == 0);
        assert(all.skip(1) =~= t + seq![Some(out)] + b);
        law_windows_versions(t, out, b, os);
    }
}

} // verus!
