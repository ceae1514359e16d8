//! What the sandbox passes on, decides and records, stated on what it is
//! given.

use vstd::prelude::*;
use crate::hooks::sandbox_hook::{self, DecisionView, SandboxView};
use crate::hooks::shell_approval;
use crate::hooks::RunOutcome;
use crate::memory::CallView;
use crate::sandbox::audit_logger::{self, EntryView};
use crate::sandbox::env_sanitizer::{
    child_env, has_path, name_among, passed_on, safe_keys, safe_name, same_name,
};
use crate::sandbox::resource_tracker;
use crate::sandbox::shell_filter::{self, VerdictView};
use crate::text;
use crate::tui::messages::ResponseView;

verus! {

// ── The environment ─────────────────────────────────────────────────────

/// Whether a variable is one that commands need: where programs and homes
/// are, the user, the locale, the terminal, and the tools of languages.
pub open spec fn is_needed(key: Seq<char>) -> bool {
    ||| key == "PATH"@
    ||| key == "HOME"@
    ||| key == "USER"@
    ||| key == "USERNAME"@
    ||| key == "TEMP"@
    ||| key == "TMP"@
    ||| key == "TMPDIR"@
    ||| key == "SHELL"@
    ||| key == "LANG"@
    ||| key == "LC_ALL"@
    ||| key == "SYSTEMROOT"@
    ||| key == "SYSTEMDRIVE"@
    ||| key == "WINDIR"@
    ||| key == "COMSPEC"@
    ||| key == "PATHEXT"@
    ||| key == "PROGRAMFILES"@
    ||| key == "PROGRAMFILES(X86)"@
    ||| key == "PROGRAMDATA"@
    ||| key == "APPDATA"@
    ||| key == "LOCALAPPDATA"@
    ||| key == "USERPROFILE"@
    ||| key == "HOMEDRIVE"@
    ||| key == "HOMEPATH"@
    ||| key == "CARGO_HOME"@
    ||| key == "RUSTUP_HOME"@
    ||| key == "RUSTC_WRAPPER"@
    ||| key == "NPM_CONFIG_USERCONFIG"@
    ||| key == "NODE_PATH"@
    ||| key == "PYTHONPATH"@
    ||| key == "GOPATH"@
    ||| key == "JAVA_HOME"@
    ||| key == "TERM"@
    ||| key == "COLORTERM"@
    ||| key == "NO_COLOR"@
    ||| key == "CLICOLOR"@
    ||| key == "FORCE_COLOR"@
    ||| key == "CI"@
    ||| key == "GITHUB_ACTIONS"@
    ||| key == "PKG_CONFIG_PATH"@
}

proof fn lemma_needed(key: Seq<char>)
    ensures
        safe_keys().contains(key) <==> is_needed(key),
{
    assert(safe_keys().len() == 39);
    assert(safe_keys()[0] == "PATH"@);
    assert(safe_keys()[1] == "HOME"@);
    assert(safe_keys()[2] == "USER"@);
    assert(safe_keys()[3] == "USERNAME"@);
    assert(safe_keys()[4] == "TEMP"@);
    assert(safe_keys()[5] == "TMP"@);
    assert(safe_keys()[6] == "TMPDIR"@);
    assert(safe_keys()[7] == "SHELL"@);
    assert(safe_keys()[8] == "LANG"@);
    assert(safe_keys()[9] == "LC_ALL"@);
    assert(safe_keys()[10] == "SYSTEMROOT"@);
    assert(safe_keys()[11] == "SYSTEMDRIVE"@);
    assert(safe_keys()[12] == "WINDIR"@);
    assert(safe_keys()[13] == "COMSPEC"@);
    assert(safe_keys()[14] == "PATHEXT"@);
    assert(safe_keys()[15] == "PROGRAMFILES"@);
    assert(safe_keys()[16] == "PROGRAMFILES(X86)"@);
    assert(safe_keys()[17] == "PROGRAMDATA"@);
    assert(safe_keys()[18] == "APPDATA"@);
    assert(safe_keys()[19] == "LOCALAPPDATA"@);
    assert(safe_keys()[20] == "USERPROFILE"@);
    assert(safe_keys()[21] == "HOMEDRIVE"@);
    assert(safe_keys()[22] == "HOMEPATH"@);
    assert(safe_keys()[23] == "CARGO_HOME"@);
    assert(safe_keys()[24] == "RUSTUP_HOME"@);
    assert(safe_keys()[25] == "RUSTC_WRAPPER"@);
    assert(safe_keys()[26] == "NPM_CONFIG_USERCONFIG"@);
    assert(safe_keys()[27] == "NODE_PATH"@);
    assert(safe_keys()[28] == "PYTHONPATH"@);
    assert(safe_keys()[29] == "GOPATH"@);
    assert(safe_keys()[30] == "JAVA_HOME"@);
    assert(safe_keys()[31] == "TERM"@);
    assert(safe_keys()[32] == "COLORTERM"@);
    assert(safe_keys()[33] == "NO_COLOR"@);
    assert(safe_keys()[34] == "CLICOLOR"@);
    assert(safe_keys()[35] == "FORCE_COLOR"@);
    assert(safe_keys()[36] == "CI"@);
    assert(safe_keys()[37] == "GITHUB_ACTIONS"@);
    assert(safe_keys()[38] == "PKG_CONFIG_PATH"@);
}

proof fn lemma_among(names: Seq<Seq<char>>, key: Seq<char>, windows: bool)
    ensures
        name_among(names, key, windows) is None <==> (forall|i: int|
            0 <= i < names.len() ==> !same_name(#[trigger] names[i], key, windows)),
        name_among(names, key, windows) matches Some(n) ==> names.contains(n) && same_name(
            n,
            key,
            windows,
        ),
    decreases names.len(),
{
    if names.len() > 0 {
        let rest = names.skip(1);
        lemma_among(rest, key, windows);
        if same_name(names[0], key, windows) {
            assert(names.contains(names[0]));
        } else {
            assert forall|i: int| 0 <= i < rest.len() implies rest[i] == names[i + 1] by {}
            match name_among(names, key, windows) {
                Some(n) => {
                    let i = choose|i: int| 0 <= i < rest.len() && rest[i] == n;
                    assert(names[i + 1] == n);
                },
                None => {
                    assert forall|i: int| 0 <= i < names.len() implies !same_name(
                        #[trigger] names[i],
                        key,
                        windows,
                    ) by {
                        if i > 0 {
                            assert(rest[i - 1] == names[i]);
                        }
                    }
                },
            }
        }
    }
}

/// A variable is passed on exactly where commands need it. Elsewhere than on
/// Windows it is known by its exact name; there the case does not matter, and
/// it is passed on under the name that commands know.
pub proof fn law_needed_variables(key: Seq<char>)
    ensures
        is_needed(key) ==> safe_name(key, false) == Some(key),
        !is_needed(key) ==> safe_name(key, false) is None,
        is_needed(key) ==> safe_name(key, true) is Some,
        safe_name(key, true) matches Some(n) ==> is_needed(n) && n.len() == key.len() && (forall|
            i: int,
        |
            0 <= i < n.len() ==> (#[trigger] n[i] == key[i] || ('A' <= n[i] <= 'Z' && key[i] as int
                == n[i] as int + 32) || ('A' <= key[i] <= 'Z' && n[i] as int == key[i] as int
                + 32))),
{
    lemma_needed(key);
    lemma_among(safe_keys(), key, false);
    lemma_among(safe_keys(), key, true);
    if is_needed(key) {
        let i = choose|i: int| 0 <= i < safe_keys().len() && safe_keys()[i] == key;
        assert(same_name(safe_keys()[i], key, false));
        assert(same_name(safe_keys()[i], key, true));
    }
    match safe_name(key, true) {
        Some(n) => {
            lemma_needed(n);
            assert forall|i: int| 0 <= i < n.len() implies (#[trigger] n[i] == key[i] || ('A'
                <= n[i] <= 'Z' && key[i] as int == n[i] as int + 32) || ('A' <= key[i] <= 'Z'
                && n[i] as int == key[i] as int + 32)) by {
                assert(text::ascii_lower(n[i]) == text::ascii_lower(key[i]));
            }
        },
        None => {},
    }
}

/// Variables are passed on one by one and in their order, each with its value;
/// only before the search path comes the directory of the programs, where
/// there is one.
pub proof fn law_variables_are_passed_on(
    a: Seq<(Seq<char>, Seq<char>)>,
    b: Seq<(Seq<char>, Seq<char>)>,
    key: Seq<char>,
    value: Seq<char>,
    bin: Seq<char>,
)
    ensures
        forall|d: Option<Seq<char>>, windows: bool|
            #![trigger passed_on(a + b, d, windows)]
            passed_on(a + b, d, windows) == passed_on(a, d, windows) + passed_on(b, d, windows),
        is_needed(key) ==> passed_on(seq![(key, value)], None, false) == seq![(key, value)],
        is_needed(key) && key != "PATH"@ ==> passed_on(seq![(key, value)], Some(bin), false)
            == seq![(key, value)],
        passed_on(seq![("PATH"@, value)], Some(bin), false) == seq![
            ("PATH"@, bin + seq![':'] + value),
        ],
        !is_needed(key) ==> passed_on(seq![(key, value)], Some(bin), false).len() == 0,
        !is_needed(key) ==> passed_on(seq![(key, value)], None, false).len() == 0,
{
    reveal_strlit(":");
    assert(":"@ =~= seq![':']);
    assert forall|d: Option<Seq<char>>, windows: bool|
        #![trigger passed_on(a + b, d, windows)]
        passed_on(a + b, d, windows) == passed_on(a, d, windows) + passed_on(b, d, windows) by {
        lemma_passed_on_add(a, b, d, windows);
    }
    law_needed_variables(key);
    law_needed_variables("PATH"@);
    lemma_passed_on_one(key, value, None, false);
    lemma_passed_on_one(key, value, Some(bin), false);
    lemma_passed_on_one("PATH"@, value, Some(bin), false);
}

proof fn lemma_passed_on_one(key: Seq<char>, value: Seq<char>, d: Option<Seq<char>>, windows: bool)
    ensures
        passed_on(seq![(key, value)], d, windows) == (match safe_name(key, windows) {
            Some(name) => if name == "PATH"@ && d is Some {
                seq![(name, d->0 + crate::sandbox::env_sanitizer::separator(windows) + value)]
            } else {
                seq![(name, value)]
            },
            None => Seq::empty(),
        }),
{
    let none = Seq::<(Seq<char>, Seq<char>)>::empty();
    assert(seq![(key, value)].drop_last() =~= none);
    assert(passed_on(none, d, windows) =~= none);
    assert(passed_on(seq![(key, value)], d, windows) =~= (match safe_name(key, windows) {
        Some(name) => if name == "PATH"@ && d is Some {
            seq![(name, d->0 + crate::sandbox::env_sanitizer::separator(windows) + value)]
        } else {
            seq![(name, value)]
        },
        None => Seq::empty(),
    }));
}

proof fn lemma_passed_on_add(
    a: Seq<(Seq<char>, Seq<char>)>,
    b: Seq<(Seq<char>, Seq<char>)>,
    d: Option<Seq<char>>,
    windows: bool,
)
    ensures
        passed_on(a + b, d, windows) == passed_on(a, d, windows) + passed_on(b, d, windows),
    decreases b.len(),
{
    if b.len() == 0 {
        assert(a + b =~= a);
        assert(passed_on(a, d, windows) + passed_on(b, d, windows) =~= passed_on(a, d, windows));
    } else {
        let f = b.drop_last();
        assert((a + b).drop_last() =~= a + f);
        assert((a + b).last() == b.last());
        lemma_passed_on_add(a, f, d, windows);
        assert(passed_on(a + b, d, windows) =~= passed_on(a, d, windows) + passed_on(
            b,
            d,
            windows,
        ));
    }
}

/// Where there is a directory of programs, commands find it first: the search
/// path begins with it, and is made where there was none.
pub proof fn law_programs_are_found(vars: Seq<(Seq<char>, Seq<char>)>, bin: Seq<char>)
    ensures
        exists|i: int|
            0 <= i < child_env(vars, Some(bin), false).len() && (#[trigger] child_env(
                vars,
                Some(bin),
                false,
            )[i]).0 == "PATH"@ && text::begins_with(
                child_env(vars, Some(bin), false)[i].1,
                bin,
            ),
        child_env(vars, None, false) == passed_on(vars, None, false),
{
    let env = child_env(vars, Some(bin), false);
    let kept = passed_on(vars, Some(bin), false);
    if has_path(vars, false) {
        let k = choose|k: int|
            0 <= k < vars.len() && safe_name((#[trigger] vars[k]).0, false) == Some("PATH"@);
        let a = vars.take(k);
        let v = vars[k];
        let b = vars.skip(k + 1);
        assert(vars =~= a + (seq![v] + b));
        lemma_passed_on_add(a, seq![v] + b, Some(bin), false);
        lemma_passed_on_add(seq![v], b, Some(bin), false);
        lemma_passed_on_one(v.0, v.1, Some(bin), false);
        assert(seq![v] =~= seq![(v.0, v.1)]);
        let i = passed_on(a, Some(bin), false).len() as int;
        let whole = bin + ":"@ + v.1;
        assert(env[i] == ("PATH"@, whole));
        assert(whole.subrange(0, bin.len() as int) =~= bin);
    } else {
        assert(env[kept.len() as int] == ("PATH"@, bin));
        assert(bin.subrange(0, bin.len() as int) =~= bin);
    }
}

// ── The trail ───────────────────────────────────────────────────────────

/// A record joins the end of the trail; only where the trail is full does the
/// oldest one leave.
pub proof fn law_records_join_the_trail(trail: Seq<EntryView>, e: EntryView)
    ensures
        trail.len() < 256 ==> audit_logger::ring_push(trail, e) == trail + seq![e],
        trail.len() == 256 ==> audit_logger::ring_push(trail, e) == trail.skip(1) + seq![e],
{
    assert(trail.push(e) =~= trail + seq![e]);
    assert(trail.skip(1).push(e) =~= trail.skip(1) + seq![e]);
}

/// The latest records come newest first.
pub proof fn law_newest_come_first(trail: Seq<EntryView>, e: EntryView, n: nat)
    ensures
        audit_logger::newest(trail, 0).len() == 0,
        audit_logger::newest(Seq::empty(), n).len() == 0,
        audit_logger::newest(trail.push(e), n + 1) == seq![e] + audit_logger::newest(trail, n),
{
    assert(audit_logger::newest(trail.push(e), n + 1) =~= seq![e] + audit_logger::newest(trail, n));
}

// ── Decisions ───────────────────────────────────────────────────────────

/// Whether a session has used up what it may do.
pub open spec fn is_used_up(h: SandboxView, session: Seq<char>, tool: Seq<char>) -> bool {
    let s = if h.sessions.contains_key(session) {
        h.sessions[session]
    } else {
        resource_tracker::SessionStats { total_operations: 0, active_shells: 0 }
    };
    s.total_operations >= h.max_ops || (tool == "shell"@ && s.active_shells >= h.max_shells)
}

/// A call of a session that has used up what it may do is refused under its
/// name. Else a command is decided by the policy: it runs, waits for the user,
/// or is refused with the reason; and every other call goes ahead.
pub proof fn law_calls_are_decided(
    h: SandboxView,
    session: Seq<char>,
    call: CallView,
    now: Seq<char>,
)
    ensures
        ({
            let (g, d, e) = sandbox_hook::on_call(h, session, call, now);
            let command = shell_approval::shell_command(call.arguments);
            let v = shell_filter::classified(h.filter, command);
            let shell = call.name == "shell"@;
            let full = is_used_up(h, session, call.name);
            &&& full ==> (d matches DecisionView::Refused(r) && r.name == call.name)
                && e is None && g.trail == h.trail
            &&& !full && !shell ==> d is Allowed && e is None && g.trail == h.trail
            &&& !full && shell && v is AutoApproved ==> d is Allowed
            &&& !full && shell && v is RequiresApproval ==> d == DecisionView::AskUser(command)
                && e is None && g.trail == h.trail
            &&& !full && shell ==> (v matches VerdictView::Blocked { reason } ==> (
            d matches DecisionView::Refused(r) && r.name == "shell"@ && text::finishes_with(
                r.reason,
                reason,
            )))
            &&& !h.audited ==> e is None && g.trail == h.trail
            &&& g.filter == h.filter && g.max_ops == h.max_ops && g.max_shells == h.max_shells
        }),
{
    let command = shell_approval::shell_command(call.arguments);
    match shell_filter::classified(h.filter, command) {
        VerdictView::Blocked { reason } => {
            let s = "Blocked by sandbox: "@ + reason;
            assert(s.subrange(s.len() - reason.len(), s.len() as int) =~= reason);
        },
        _ => {},
    }
}

/// A command that ran without asking is recorded as allowed, and one that was
/// blocked with the reason, both under the session.
pub proof fn law_decisions_are_recorded(
    h: SandboxView,
    session: Seq<char>,
    command: Seq<char>,
    reason: Seq<char>,
    now: Seq<char>,
)
    requires
        h.audited,
    ensures
        ({
            let (g, d, e) = sandbox_hook::on_command(
                h,
                session,
                command,
                VerdictView::AutoApproved,
                now,
            );
            e matches Some(x) && x.session_id == session && x.command == command && x.timestamp
                == now && x.verdict == "auto_approved"@ && x.outcome == "allowed"@ && x.tool
                == "shell"@
        }),
        ({
            let (g, d, e) = sandbox_hook::on_command(
                h,
                session,
                command,
                VerdictView::Blocked { reason },
                now,
            );
            e matches Some(x) && x.session_id == session && x.command == command && x.timestamp
                == now && x.verdict == "blocked"@ && x.outcome == reason && x.tool == "shell"@
        }),
{
}

/// The user lets a command run with the first or the third choice; with the
/// second, with none, or without an answer, it is refused. Either is recorded.
pub proof fn law_replies_decide(
    h: SandboxView,
    session: Seq<char>,
    command: Seq<char>,
    reply: Option<ResponseView>,
    now: Seq<char>,
)
    ensures
        ({
            let (g, r, e) = sandbox_hook::on_reply(h, session, command, reply, now);
            let yes = reply is Some && (reply->0.chosen == Some(0usize) || reply->0.chosen == Some(
                2usize,
            ));
            &&& r is None <==> yes
            &&& r matches Some(x) ==> x.name == "shell"@
            &&& e is Some <==> h.audited
            &&& e matches Some(x) ==> x.command == command && x.session_id == session && x.tool
                == "shell"@ && x.verdict == (if yes {
                "user_approved"@
            } else {
                "user_denied"@
            })
        }),
{
}

/// A call that ran counts as one operation of its session, and a command as no
/// longer running. What came of it is recorded, but for a command that
/// succeeded, which was recorded when it was decided.
pub proof fn law_outcomes_are_recorded(
    h: SandboxView,
    session: Seq<char>,
    call: CallView,
    outcome: Seq<char>,
    now: Seq<char>,
)
    requires
        h.sessions.contains_key(session),
        h.sessions[session].total_operations < usize::MAX,
        call.name == "shell"@ ==> h.sessions[session].active_shells > 0,
    ensures
        ({
            let s = h.sessions[session];
            let shell = call.name == "shell"@;
            let (g, e) = sandbox_hook::on_success(h, session, call, outcome, now);
            let (k, f) = sandbox_hook::on_failure(h, session, call, outcome, now);
            &&& g.sessions[session].total_operations == s.total_operations + 1
            &&& k.sessions == g.sessions
            &&& g.sessions[session].active_shells == s.active_shells - (if shell {
                1int
            } else {
                0
            })
            &&& e is Some <==> h.audited && !shell
            &&& f is Some <==> h.audited
            &&& e matches Some(x) ==> x.tool == call.name && x.command == call.arguments
                && x.verdict == "allowed"@ && x.session_id == session
            &&& f matches Some(x) ==> x.tool == call.name && x.command == call.arguments
                && x.verdict == "tool_failed"@ && x.session_id == session
            &&& text::byte_len(outcome) <= 100 ==> (e matches Some(x) ==> x.outcome == outcome) && (
            f matches Some(x) ==> x.outcome == outcome)
        }),
{
}

/// A command runs only where the user said yes; other calls are not asked
/// about.
pub proof fn law_commands_need_a_yes(call: CallView, approved: Option<bool>)
    ensures
        shell_approval::verdict(call, approved) is None <==> call.name != "shell"@ || approved
            == Some(true),
        shell_approval::verdict(call, approved) matches Some(r) ==> r.name == "shell"@,
{
}

/// The end of a run is recorded under its session, with how it ended.
pub proof fn law_run_ends_are_recorded(session: Seq<char>, outcome: RunOutcome, now: Seq<char>)
    ensures
        ({
            let e = sandbox_hook::finish_entry(session, outcome, now);
            &&& e.session_id == session && e.timestamp == now && e.tool == "__run_finish__"@
            &&& outcome is Success ==> e.verdict == "success"@
            &&& outcome is Error ==> e.verdict == "error"@
            &&& outcome is Cancelled ==> e.verdict == "cancelled"@
            &&& text::finishes_with(e.outcome, e.verdict)
        }),
{
    let e = sandbox_hook::finish_entry(session, outcome, now);
    assert(e.outcome.subrange(e.outcome.len() - e.verdict.len(), e.outcome.len() as int)
        =~= e.verdict);
}

/// On Windows a variable is passed on under the name that commands know, with
/// its value; only before the search path comes the directory of the programs,
/// behind which stands a semicolon.
pub proof fn law_windows_variables(key: Seq<char>, value: Seq<char>, bin: Seq<char>)
    ensures
        safe_name(key, true) matches Some(n) ==> {
            &&& passed_on(seq![(key, value)], None, true) == seq![(n, value)]
            &&& n != "PATH"@ ==> passed_on(seq![(key, value)], Some(bin), true) == seq![(n, value)]
            &&& n == "PATH"@ ==> passed_on(seq![(key, value)], Some(bin), true) == seq![
                (n, bin + seq![';'] + value),
            ]
        },
        safe_name(key, true) is None ==> passed_on(seq![(key, value)], Some(bin), true).len() == 0
            && passed_on(seq![(key, value)], None, true).len() == 0,
{
    reveal_strlit(";");
    assert(";"@ =~= seq![';']);
    lemma_passed_on_one(key, value, None, true);
    lemma_passed_on_one(key, value, Some(bin), true);
}

} // verus!
