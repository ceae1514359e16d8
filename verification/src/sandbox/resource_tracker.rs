//! Quotas of a session: how many operations it made, and how many shells it
//! has running.

use vstd::prelude::*;
use crate::sandbox::config::SandboxConfig;
use crate::text;

verus! {

/// What a session has used.
#[derive(Clone, Copy, Debug, PartialEq, Eq, Structural)]
pub struct SessionStats {
    pub total_operations: usize,
    pub active_shells: usize,
}

impl SessionStats {
    /// A session that has used nothing.
    #[verifier::allow_in_spec]
    pub fn fresh() -> SessionStats
        returns
            (SessionStats { total_operations: 0, active_shells: 0 }),
    {
        SessionStats { total_operations: 0, active_shells: 0 }
    }
}

/// The usage of each session.
pub struct ResourceTracker {
    sessions: Vec<(String, SessionStats)>,
    max_total_operations: usize,
    max_concurrent_shells: usize,
}

/// The usage of each session in a list; the last entry of a name counts.
pub open spec fn usage(v: Seq<(String, SessionStats)>) -> Map<Seq<char>, SessionStats>
    decreases v.len(),
{
    if v.len() == 0 {
        Map::empty()
    } else {
        usage(v.drop_last()).insert(v.last().0@, v.last().1)
    }
}

/// Whether no session is listed twice.
pub open spec fn names_once(v: Seq<(String, SessionStats)>) -> bool {
    forall|i: int, j: int|
        0 <= i < j < v.len() ==> (#[trigger] v[i]).0@ != (#[trigger] v[j]).0@
}

proof fn lemma_usage(v: Seq<(String, SessionStats)>)
    requires
        names_once(v),
    ensures
        forall|i: int|
            0 <= i < v.len() ==> usage(v).contains_key((#[trigger] v[i]).0@) && usage(v)[v[i].0@]
                == v[i].1,
        forall|k: Seq<char>|
            (forall|i: int| 0 <= i < v.len() ==> (#[trigger] v[i]).0@ != k) ==> !(
            #[trigger] usage(v).contains_key(k)),
    decreases v.len(),
{
    if v.len() > 0 {
        let front = v.drop_last();
        assert(names_once(front)) by {
            assert forall|i: int, j: int| 0 <= i < j < front.len() implies (#[trigger] front[i]).0@
                != (#[trigger] front[j]).0@ by {
                assert(front[i] == v[i] && front[j] == v[j]);
            }
        }
        lemma_usage(front);
        assert forall|i: int| 0 <= i < v.len() implies usage(v).contains_key((#[trigger] v[i]).0@)
            && usage(v)[v[i].0@] == v[i].1 by {
            if i < front.len() {
                assert(front[i] == v[i]);
                assert(v[i].0@ != v[v.len() - 1].0@);
            }
        }
        assert forall|k: Seq<char>|
            (forall|i: int| 0 <= i < v.len() ==> (#[trigger] v[i]).0@ != k) implies !(
        #[trigger] usage(v).contains_key(k)) by {
            assert forall|i: int| 0 <= i < front.len() implies (#[trigger] front[i]).0@ != k by {
                assert(front[i] == v[i]);
            }
            assert(v[v.len() - 1].0@ != k);
            assert(!usage(front).contains_key(k));
        }
    }
}

proof fn lemma_usage_update(v: Seq<(String, SessionStats)>, i: int, e: (String, SessionStats))
    requires
        names_once(v),
        0 <= i < v.len(),
        e.0@ == v[i].0@,
    ensures
        usage(v.update(i, e)) == usage(v).insert(v[i].0@, e.1),
        names_once(v.update(i, e)),
    decreases v.len(),
{
    let u = v.update(i, e);
    assert forall|a: int, b: int| 0 <= a < b < u.len() implies (#[trigger] u[a]).0@ != (
    #[trigger] u[b]).0@ by {
        assert(v[a].0@ != v[b].0@);
    }
    lemma_usage(v);
    lemma_usage(u);
    let want = usage(v).insert(v[i].0@, e.1);
    assert forall|k: Seq<char>|
        #![trigger usage(u).contains_key(k)]
        #![trigger want.contains_key(k)]
        usage(u).contains_key(k) == want.contains_key(k) && (want.contains_key(k) ==> usage(u)[k]
            == want[k]) by {
        if exists|a: int| 0 <= a < v.len() && (#[trigger] v[a]).0@ == k {
            let a = choose|a: int| 0 <= a < v.len() && (#[trigger] v[a]).0@ == k;
            assert(u[a].0@ == k);
            if a != i {
                assert(v[a].0@ != v[i].0@);
            }
        } else {
            assert forall|a: int| 0 <= a < u.len() implies (#[trigger] u[a]).0@ != k by {
                assert(v[a].0@ != k);
            }
            assert(!usage(u).contains_key(k));
            assert(!usage(v).contains_key(k));
        }
    }
    assert(usage(u).dom() =~= want.dom());
    assert(usage(u) =~= want);
}

impl View for ResourceTracker {
    type V = Map<Seq<char>, SessionStats>;

    closed spec fn view(&self) -> Map<Seq<char>, SessionStats> {
        usage(self.sessions@)
    }
}

/// What a session has used; nothing before its first operation.
pub open spec fn used(m: Map<Seq<char>, SessionStats>, session: Seq<char>) -> SessionStats {
    if m.contains_key(session) {
        m[session]
    } else {
        SessionStats::fresh()
    }
}

/// Whether a quota stands against one more operation of a session.
pub enum Refusal {
    Nothing,
    TooManyOperations,
    TooManyShells,
}

/// Which quota stands against an operation.
pub open spec fn refusal(s: SessionStats, tool: Seq<char>, max_ops: nat, max_shells: nat) -> Refusal {
    if s.total_operations >= max_ops {
        Refusal::TooManyOperations
    } else if tool == "shell"@ && s.active_shells >= max_shells {
        Refusal::TooManyShells
    } else {
        Refusal::Nothing
    }
}

/// A session once an operation was let through: a shell is running.
pub open spec fn admitted(s: SessionStats, tool: Seq<char>) -> SessionStats {
    if tool == "shell"@ {
        SessionStats { active_shells: (s.active_shells + 1) as usize, ..s }
    } else {
        s
    }
}

/// A session once an operation completed. The count starts over behind the
/// largest number.
pub open spec fn completed(s: SessionStats, tool: Seq<char>) -> SessionStats {
    SessionStats {
        total_operations: if s.total_operations == usize::MAX {
            0
        } else {
            (s.total_operations + 1) as usize
        },
        active_shells: if tool == "shell"@ {
            (s.active_shells - 1) as usize
        } else {
            s.active_shells
        },
    }
}

/// A session once an operation that was let through did not run after all.
pub open spec fn withdrawn(s: SessionStats, tool: Seq<char>) -> SessionStats {
    if tool == "shell"@ {
        SessionStats { active_shells: (s.active_shells - 1) as usize, ..s }
    } else {
        s
    }
}

/// A call of the tracker; of a check also whether it let the operation
/// through.
pub enum Call {
    Check { session: Seq<char>, tool: Seq<char>, passed: bool },
    Record { session: Seq<char>, tool: Seq<char> },
    Cancel { session: Seq<char>, tool: Seq<char> },
}

/// The usage once a call was made.
pub open spec fn step(m: Map<Seq<char>, SessionStats>, call: Call) -> Map<Seq<char>, SessionStats> {
    match call {
        Call::Check { session, tool, passed } => m.insert(
            session,
            if passed {
                admitted(used(m, session), tool)
            } else {
                used(m, session)
            },
        ),
        Call::Record { session, tool } => if m.contains_key(session) {
            m.insert(session, completed(m[session], tool))
        } else {
            m
        },
        Call::Cancel { session, tool } => if m.contains_key(session) {
            m.insert(session, withdrawn(m[session], tool))
        } else {
            m
        },
    }
}

impl ResourceTracker {
    /// How many operations a session may make.
    pub closed spec fn max_ops(&self) -> nat {
        self.max_total_operations as nat
    }

    /// How many shells a session may have running.
    pub closed spec fn max_shells(&self) -> nat {
        self.max_concurrent_shells as nat
    }

    /// No session is listed twice, and none has more shells running than it
    /// may.
    pub closed spec fn wf(&self) -> bool {
        &&& names_once(self.sessions@)
        &&& forall|i: int|
            0 <= i < self.sessions@.len() ==> (#[trigger] self.sessions@[i]).1.active_shells
                <= self.max_concurrent_shells
    }

    /// The quotas are machine numbers.
    pub proof fn lemma_limits(&self)
        ensures
            self.max_ops() <= usize::MAX,
            self.max_shells() <= usize::MAX,
    {
    }

    /// No session ever has more shells running than it may.
    pub proof fn law_quotas_hold(&self, session: Seq<char>)
        requires
            self.wf(),
        ensures
            used(self@, session).active_shells <= self.max_shells(),
    {
        lemma_usage(self.sessions@);
        if self@.contains_key(session) {
            if forall|i: int|
                0 <= i < self.sessions@.len() ==> (#[trigger] self.sessions@[i]).0@ != session {
                assert(!usage(self.sessions@).contains_key(session));
            }
            let i = choose|i: int|
                0 <= i < self.sessions@.len() && (#[trigger] self.sessions@[i]).0@ == session;
            assert(usage(self.sessions@)[self.sessions@[i].0@] == self.sessions@[i].1);
        }
    }

    /// A tracker with the quotas of a configuration, and no session yet.
    pub fn new(config: &SandboxConfig) -> (r: ResourceTracker)
        ensures
            r@ == Map::<Seq<char>, SessionStats>::empty(),
            r.max_ops() == config.max_total_operations,
            r.max_shells() == config.max_concurrent_shells,
            r.wf(),
    {
        ResourceTracker {
            sessions: Vec::new(),
            max_total_operations: config.max_total_operations,
            max_concurrent_shells: config.max_concurrent_shells,
        }
    }

    fn find(&self, session_id: &str) -> (r: Option<usize>)
        requires
            names_once(self.sessions@),
        ensures
            match r {
                Some(i) => i < self.sessions@.len() && self.sessions@[i as int].0@ == session_id@
                    && self@.contains_key(session_id@) && self@[session_id@]
                    == self.sessions@[i as int].1,
                None => !self@.contains_key(session_id@) && forall|i: int|
                    0 <= i < self.sessions@.len() ==> (#[trigger] self.sessions@[i]).0@
                        != session_id@,
            },
    {
        proof {
            lemma_usage(self.sessions@);
        }
        let mut i: usize = 0;
        while i < self.sessions.len()
            invariant
                i <= self.sessions@.len(),
                names_once(self.sessions@),
                forall|k: int| 0 <= k < i ==> (#[trigger] self.sessions@[k]).0@ != session_id@,
            decreases self.sessions@.len() - i,
        {
            if text::same_text(self.sessions[i].0.as_str(), session_id) {
                proof {
                    lemma_usage(self.sessions@);
                }
                return Some(i);
            }
            i = i + 1;
        }
        None
    }

    fn put(&mut self, at: Option<usize>, session_id: &str, stats: SessionStats)
        requires
            old(self).wf(),
            stats.active_shells <= old(self).max_shells(),
            match at {
                Some(i) => i < old(self).sessions@.len() && old(self).sessions@[i as int].0@
                    == session_id@,
                None => forall|i: int|
                    0 <= i < old(self).sessions@.len() ==> (#[trigger] old(self).sessions@[i]).0@
                        != session_id@,
            },
        ensures
            final(self)@ == old(self)@.insert(session_id@, stats),
            final(self).wf(),
            final(self).max_ops() == old(self).max_ops(),
            final(self).max_shells() == old(self).max_shells(),
    {
        let ghost before = self.sessions@;
        let name = session_id.to_owned();
        match at {
            Some(i) => {
                proof {
                    lemma_usage_update(before, i as int, (name, stats));
                }
                self.sessions.set(i, (name, stats));
            },
            None => {
                self.sessions.push((name, stats));
                assert(self.sessions@.drop_last() =~= before);
            },
        }
    }

    /// Asks for one more operation of a session; for a shell it counts as
    /// running from then on.
    pub fn check(&mut self, session_id: &str, tool_name: &str) -> (r: Result<(), String>)
        requires
            old(self).wf(),
        ensures
            final(self).wf(),
            final(self)@ == step(
                old(self)@,
                Call::Check { session: session_id@, tool: tool_name@, passed: r is Ok },
            ),
            final(self).max_ops() == old(self).max_ops(),
            final(self).max_shells() == old(self).max_shells(),
            match refusal(
                used(old(self)@, session_id@),
                tool_name@,
                old(self).max_ops(),
                old(self).max_shells(),
            ) {
                Refusal::Nothing => r is Ok && final(self)@ == old(self)@.insert(
                    session_id@,
                    admitted(used(old(self)@, session_id@), tool_name@),
                ),
                Refusal::TooManyOperations => r matches Err(e) && e@
                    == "session quota exceeded: "@ + text::decimal(old(self).max_ops())
                    + " total operations"@ && final(self)@ == old(self)@.insert(
                    session_id@,
                    used(old(self)@, session_id@),
                ),
                Refusal::TooManyShells => r matches Err(e) && e@
                    == "too many concurrent shells (max "@ + text::decimal(old(self).max_shells())
                    + ")"@ && final(self)@ == old(self)@.insert(
                    session_id@,
                    used(old(self)@, session_id@),
                ),
            },
    {
        let at = self.find(session_id);
        let stats: SessionStats = match at {
            Some(i) => self.sessions[i].1,
            None => SessionStats::fresh(),
        };
        proof {
            self.law_quotas_hold(session_id@);
        }
        if stats.total_operations >= self.max_total_operations {
            self.put(at, session_id, stats);
            return Err(
                text::cat3(
                    "session quota exceeded: ",
                    text::decimal_of(self.max_total_operations as u64).as_str(),
                    " total operations",
                ),
            );
        }
        if text::same_text(tool_name, "shell") {
            if stats.active_shells >= self.max_concurrent_shells {
                self.put(at, session_id, stats);
                return Err(
                    text::cat3(
                        "too many concurrent shells (max ",
                        text::decimal_of(self.max_concurrent_shells as u64).as_str(),
                        ")",
                    ),
                );
            }
            self.put(
                at,
                session_id,
                SessionStats { active_shells: stats.active_shells + 1, ..stats },
            );
        } else {
            self.put(at, session_id, stats);
        }
        Ok(())
    }

    /// Records that an operation completed. Each is preceded by a `check`
    /// that let it through; a session that was never checked is left alone.
    pub fn record(&mut self, session_id: &str, tool_name: &str)
        requires
            old(self).wf(),
            old(self)@.contains_key(session_id@) && tool_name@ == "shell"@ ==> old(
                self,
            )@[session_id@].active_shells > 0,
        ensures
            final(self).wf(),
            final(self)@ == step(
                old(self)@,
                Call::Record { session: session_id@, tool: tool_name@ },
            ),
            final(self).max_ops() == old(self).max_ops(),
            final(self).max_shells() == old(self).max_shells(),
            final(self)@ == (if old(self)@.contains_key(session_id@) {
                old(self)@.insert(session_id@, completed(old(self)@[session_id@], tool_name@))
            } else {
                old(self)@
            }),
    {
        let at = self.find(session_id);
        match at {
            Some(i) => {
                let stats: SessionStats = self.sessions[i].1;
                proof {
                    self.law_quotas_hold(session_id@);
                }
                let shells: usize = if text::same_text(tool_name, "shell") {
                    stats.active_shells - 1
                } else {
                    stats.active_shells
                };
                self.put(
                    at,
                    session_id,
                    SessionStats {
                        total_operations: if stats.total_operations == usize::MAX {
                            0
                        } else {
                            stats.total_operations + 1
                        },
                        active_shells: shells,
                    },
                );
            },
            None => {},
        }
    }

    /// Takes back a `check` whose operation did not run. A session that was
    /// never checked is left alone.
    pub fn cancel(&mut self, session_id: &str, tool_name: &str)
        requires
            old(self).wf(),
            old(self)@.contains_key(session_id@) && tool_name@ == "shell"@ ==> old(
                self,
            )@[session_id@].active_shells > 0,
        ensures
            final(self).wf(),
            final(self)@ == step(
                old(self)@,
                Call::Cancel { session: session_id@, tool: tool_name@ },
            ),
            final(self).max_ops() == old(self).max_ops(),
            final(self).max_shells() == old(self).max_shells(),
            final(self)@ == (if old(self)@.contains_key(session_id@) {
                old(self)@.insert(session_id@, withdrawn(old(self)@[session_id@], tool_name@))
            } else {
                old(self)@
            }),
    {
        let at = self.find(session_id);
        match at {
            Some(i) => {
                let stats: SessionStats = self.sessions[i].1;
                proof {
                    self.law_quotas_hold(session_id@);
                }
                let shells: usize = if text::same_text(tool_name, "shell") {
                    stats.active_shells - 1
                } else {
                    stats.active_shells
                };
                self.put(at, session_id, SessionStats { active_shells: shells, ..stats });
            },
            None => {},
        }
    }
}

/// A shell that was let through and completed leaves no shell running that
/// was not running before, and counts as one operation.
pub proof fn law_check_then_record(s: SessionStats, tool: Seq<char>, max_ops: nat, max_shells: nat)
    requires
        refusal(s, tool, max_ops, max_shells) is Nothing,
        max_shells <= usize::MAX,
    ensures
        completed(admitted(s, tool), tool).active_shells == s.active_shells,
        s.total_operations < usize::MAX ==> completed(admitted(s, tool), tool).total_operations
            == s.total_operations + 1,
{
}

/// A check that is taken back leaves the usage of before.
pub proof fn law_cancel_undoes_check(
    s: SessionStats,
    tool: Seq<char>,
    max_ops: nat,
    max_shells: nat,
)
    requires
        refusal(s, tool, max_ops, max_shells) is Nothing,
        max_shells <= usize::MAX,
    ensures
        withdrawn(admitted(s, tool), tool) == s,
{
}

// ── Histories ───────────────────────────────────────────────────────────

/// The usage after a history of calls of a new tracker.
pub open spec fn usage_after(h: Seq<Call>) -> Map<Seq<char>, SessionStats>
    decreases h.len(),
{
    if h.len() == 0 {
        Map::empty()
    } else {
        step(usage_after(h.drop_last()), h.last())
    }
}

/// Whether a session was checked.
pub open spec fn was_checked(h: Seq<Call>, s: Seq<char>) -> bool {
    exists|i: int|
        0 <= i < h.len() && (#[trigger] h[i] matches Call::Check { session, .. } && session == s)
}

/// How many operations of a session were recorded since it was first
/// checked.
pub open spec fn recorded(h: Seq<Call>, s: Seq<char>) -> nat
    decreases h.len(),
{
    if h.len() == 0 {
        0
    } else {
        let before = recorded(h.drop_last(), s);
        match h.last() {
            Call::Record { session, .. } => if session == s && was_checked(h.drop_last(), s) {
                before + 1
            } else {
                before
            },
            _ => before,
        }
    }
}

/// How many shells of a session were let through, and neither recorded nor
/// cancelled.
pub open spec fn open_shells(h: Seq<Call>, s: Seq<char>) -> int
    decreases h.len(),
{
    if h.len() == 0 {
        0
    } else {
        let before = open_shells(h.drop_last(), s);
        match h.last() {
            Call::Check { session, tool, passed } => if session == s && tool == "shell"@
                && passed {
                before + 1
            } else {
                before
            },
            Call::Record { session, tool } => if session == s && tool == "shell"@ && was_checked(
                h.drop_last(),
                s,
            ) {
                before - 1
            } else {
                before
            },
            Call::Cancel { session, tool } => if session == s && tool == "shell"@ && was_checked(
                h.drop_last(),
                s,
            ) {
                before - 1
            } else {
                before
            },
        }
    }
}

/// Whether the history is one of a tracker with these quotas: each check
/// came out as the usage of its moment has it, and each shell of a checked
/// session that was recorded or cancelled had been let through before.
pub open spec fn is_history(h: Seq<Call>, max_ops: nat, max_shells: nat) -> bool
    decreases h.len(),
{
    h.len() > 0 ==> {
        let before = usage_after(h.drop_last());
        &&& is_history(h.drop_last(), max_ops, max_shells)
        &&& match h.last() {
            Call::Check { session, tool, passed } => passed == (refusal(
                used(before, session),
                tool,
                max_ops,
                max_shells,
            ) is Nothing),
            Call::Record { session, tool } => before.contains_key(session) && tool == "shell"@
                ==> before[session].active_shells > 0,
            Call::Cancel { session, tool } => before.contains_key(session) && tool == "shell"@
                ==> before[session].active_shells > 0,
        }
    }
}

/// The tracker counts what happened: the recorded operations of a session,
/// and its open shells, which never exceed the quota.
pub proof fn law_usage_is_the_history(h: Seq<Call>, max_ops: nat, max_shells: nat, s: Seq<char>)
    requires
        is_history(h, max_ops, max_shells),
        max_shells <= usize::MAX,
        recorded(h, s) <= usize::MAX,
    ensures
        usage_after(h).contains_key(s) == was_checked(h, s),
        used(usage_after(h), s).total_operations == recorded(h, s),
        used(usage_after(h), s).active_shells == open_shells(h, s),
        0 <= open_shells(h, s) <= max_shells,
    decreases h.len(),
{
    if h.len() > 0 {
        let front = h.drop_last();
        law_usage_is_the_history(front, max_ops, max_shells, s);
        assert(was_checked(h, s) == (was_checked(front, s) || (h.last() matches Call::Check {
            session,
            ..
        } && session == s))) by {
            if was_checked(front, s) {
                let i = choose|i: int|
                    0 <= i < front.len() && (#[trigger] front[i] matches Call::Check {
                        session,
                        ..
                    } && session == s);
                assert(h[i] == front[i]);
            }
            if was_checked(h, s) {
                let i = choose|i: int|
                    0 <= i < h.len() && (#[trigger] h[i] matches Call::Check { session, .. }
                        && session == s);
                if i < front.len() {
                    assert(front[i] == h[i]);
                }
            }
            assert(h[h.len() - 1] == h.last());
        }
    }
}

/// A check is refused exactly where the recorded operations reach the quota
/// of operations, or the call is a shell and the open shells reach theirs. A
/// check that lets a shell through opens one; no other check does.
pub proof fn law_check_goes_by_the_history(
    h: Seq<Call>,
    max_ops: nat,
    max_shells: nat,
    s: Seq<char>,
    tool: Seq<char>,
    passed: bool,
)
    requires
        is_history(h.push(Call::Check { session: s, tool, passed }), max_ops, max_shells),
        max_shells <= usize::MAX,
        recorded(h, s) <= usize::MAX,
    ensures
        !passed <==> recorded(h, s) >= max_ops || (tool == "shell"@ && open_shells(h, s)
            >= max_shells),
        ({
            let next = h.push(Call::Check { session: s, tool, passed });
            &&& recorded(next, s) == recorded(h, s)
            &&& open_shells(next, s) == open_shells(h, s) + (if passed && tool == "shell"@ {
                1int
            } else {
                0
            })
        }),
{
    let next = h.push(Call::Check { session: s, tool, passed });
    assert(next.drop_last() =~= h);
    law_usage_is_the_history(h, max_ops, max_shells, s);
}

/// Recording an operation of a session that was checked counts it; where it
/// is a shell, one shell less is open, so that another is let through as long
/// as operations are left. A session that was never checked stays as it is.
pub proof fn law_record_counts(
    h: Seq<Call>,
    max_ops: nat,
    max_shells: nat,
    s: Seq<char>,
    tool: Seq<char>,
    passed: bool,
)
    requires
        is_history(
            h.push(Call::Record { session: s, tool }).push(
                Call::Check { session: s, tool: "shell"@, passed },
            ),
            max_ops,
            max_shells,
        ),
        max_shells <= usize::MAX,
        recorded(h, s) < usize::MAX,
    ensures
        ({
            let next = h.push(Call::Record { session: s, tool });
            let shell = tool == "shell"@;
            if was_checked(h, s) {
                &&& recorded(next, s) == recorded(h, s) + 1
                &&& open_shells(next, s) == open_shells(h, s) - (if shell {
                    1int
                } else {
                    0
                })
                &&& shell && recorded(h, s) + 1 < max_ops ==> passed
            } else {
                &&& recorded(next, s) == recorded(h, s)
                &&& open_shells(next, s) == open_shells(h, s)
                &&& usage_after(next) == usage_after(h)
            }
        }),
{
    let next = h.push(Call::Record { session: s, tool });
    let more = next.push(Call::Check { session: s, tool: "shell"@, passed });
    assert(next.drop_last() =~= h);
    assert(more.drop_last() =~= next);
    assert(is_history(next, max_ops, max_shells));
    law_usage_is_the_history(h, max_ops, max_shells, s);
    law_usage_is_the_history(next, max_ops, max_shells, s);
    law_check_goes_by_the_history(next, max_ops, max_shells, s, "shell"@, passed);
}

/// The session that a call is about.
pub open spec fn session_of(call: Call) -> Seq<char> {
    match call {
        Call::Check { session, .. } => session,
        Call::Record { session, .. } => session,
        Call::Cancel { session, .. } => session,
    }
}

/// A call leaves every other session as it is.
pub proof fn law_sessions_are_apart(h: Seq<Call>, call: Call, s: Seq<char>)
    requires
        session_of(call) != s,
    ensures
        recorded(h.push(call), s) == recorded(h, s),
        open_shells(h.push(call), s) == open_shells(h, s),
        used(usage_after(h.push(call)), s) == used(usage_after(h), s),
{
    assert(h.push(call).drop_last() =~= h);
}

} // verus!
