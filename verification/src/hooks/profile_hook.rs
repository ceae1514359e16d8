//! A profile of the user, gathered from what happens in runs, and shown to
//! the model.

use vstd::prelude::*;
use crate::memory::{self, insert_record, remove_marked, Message, RecordView, Role, ToolCallRef};
use crate::text;

verus! {

/// How the message with the profile begins.
pub const PROFILE_MARKER: &'static str = "[PROFILE]";

/// How many runs lie between two syntheses.
pub const SYNTHESIS_INTERVAL: u64 = 5;

/// How many recent messages a synthesis looks at.
pub const SYNTHESIS_CONTEXT_SIZE: usize = 10;

/// How many bytes of a message a synthesis looks at.
pub const SYNTHESIS_MSG_MAX_BYTES: usize = 1000;

/// How much the user wants to be told.
#[derive(Clone, Copy, Debug, PartialEq, Eq, Structural)]
pub enum Verbosity {
    Concise,
    Normal,
    Detailed,
}

impl Default for Verbosity {
    fn default() -> (r: Verbosity)
        ensures
            r == Verbosity::Normal,
    {
        Verbosity::Normal
    }
}

/// How often a tool was called, and with what success.
#[derive(Clone, Copy, Debug, PartialEq, Eq, Structural)]
pub struct ToolStats {
    pub total_calls: u64,
    pub successes: u64,
    pub failures: u64,
}

impl ToolStats {
    /// No calls yet.
    #[verifier::allow_in_spec]
    pub fn fresh() -> ToolStats
        returns
            (ToolStats { total_calls: 0, successes: 0, failures: 0 }),
    {
        ToolStats { total_calls: 0, successes: 0, failures: 0 }
    }

    /// The calls that neither succeeded nor failed: they were refused.
    pub fn rejected(&self) -> (r: u64)
        ensures
            r == if self.total_calls >= self.successes + self.failures {
                self.total_calls - self.successes - self.failures
            } else {
                0
            },
    {
        self.total_calls.saturating_sub(self.successes).saturating_sub(self.failures)
    }
}

/// What is known of the user.
pub struct Profile {
    pub language_preference: String,
    pub preferences: Vec<String>,
    pub avoidances: Vec<String>,
    pub expertise_signals: Vec<String>,
    pub coding_conventions: Vec<String>,
    pub verbosity: Verbosity,
    pub tool_stats: Vec<(String, ToolStats)>,
    pub total_sessions: u64,
    pub last_synthesis_session: u64,
    pub updated_at: String,
}

/// What a profile holds.
pub struct ProfileView {
    pub language_preference: Seq<char>,
    pub preferences: Seq<Seq<char>>,
    pub avoidances: Seq<Seq<char>>,
    pub expertise_signals: Seq<Seq<char>>,
    pub coding_conventions: Seq<Seq<char>>,
    pub verbosity: Verbosity,
    pub tool_stats: Seq<(Seq<char>, ToolStats)>,
    pub total_sessions: u64,
    pub last_synthesis_session: u64,
    pub updated_at: Seq<char>,
}

/// What the counts of tools hold.
pub open spec fn stats_view(v: Seq<(String, ToolStats)>) -> Seq<(Seq<char>, ToolStats)> {
    v.map_values(|e: (String, ToolStats)| (e.0@, e.1))
}

impl View for Profile {
    type V = ProfileView;

    open spec fn view(&self) -> ProfileView {
        ProfileView {
            language_preference: self.language_preference@,
            preferences: text::texts(self.preferences@),
            avoidances: text::texts(self.avoidances@),
            expertise_signals: text::texts(self.expertise_signals@),
            coding_conventions: text::texts(self.coding_conventions@),
            verbosity: self.verbosity,
            tool_stats: stats_view(self.tool_stats@),
            total_sessions: self.total_sessions,
            last_synthesis_session: self.last_synthesis_session,
            updated_at: self.updated_at@,
        }
    }
}

impl ProfileView {
    /// No synthesis lies ahead of the runs.
    pub open spec fn wf(self) -> bool {
        self.last_synthesis_session <= self.total_sessions
    }
}

// ── What runs tell ──────────────────────────────────────────────────────

/// Whether `c` is a CJK unified ideograph.
pub open spec fn is_cjk(c: char) -> bool {
    '\u{4e00}' <= c <= '\u{9fff}'
}

/// Whether a text has a CJK unified ideograph.
pub fn has_cjk(s: &str) -> (r: bool)
    ensures
        r == (exists|i: int| 0 <= i < s@.len() && is_cjk(#[trigger] s@[i])),
{
    let cs = text::chars_of(s);
    let mut i: usize = 0;
    while i < cs.len()
        invariant
            i <= cs@.len(),
            cs@ == s@,
            forall|k: int| 0 <= k < i ==> !is_cjk(#[trigger] s@[k]),
        decreases cs@.len() - i,
    {
        let c = cs[i];
        assert(c == s@[i as int]);
        if '\u{4e00}' <= c && c <= '\u{9fff}' {
            return true;
        }
        i = i + 1;
    }
    false
}

/// The language of the user once they wrote something: Chinese is noticed,
/// and kept.
pub open spec fn noticed_language(known: Seq<char>, input: Seq<char>) -> Seq<char> {
    if exists|i: int| 0 <= i < input.len() && is_cjk(#[trigger] input[i]) {
        "zh-CN"@
    } else {
        known
    }
}

/// The counts of a tool.
pub open spec fn stats_of(v: Seq<(Seq<char>, ToolStats)>, name: Seq<char>) -> ToolStats
    decreases v.len(),
{
    if v.len() == 0 {
        ToolStats::fresh()
    } else if v[0].0 == name {
        v[0].1
    } else {
        stats_of(v.skip(1), name)
    }
}

/// The counts with those of a tool replaced, or added.
pub open spec fn with_stats(
    v: Seq<(Seq<char>, ToolStats)>,
    name: Seq<char>,
    s: ToolStats,
) -> Seq<(Seq<char>, ToolStats)>
    decreases v.len(),
{
    if v.len() == 0 {
        seq![(name, s)]
    } else if v[0].0 == name {
        seq![(name, s)] + v.skip(1)
    } else {
        seq![v[0]] + with_stats(v.skip(1), name, s)
    }
}

/// What is counted of a tool call.
#[derive(Clone, Copy, Debug, PartialEq, Eq, Structural)]
pub enum Count {
    Call,
    Success,
    Failure,
}

/// The next count, or the largest number.
#[verifier::allow_in_spec]
pub fn one_more(n: u64) -> u64
    returns
        if n == u64::MAX {
            n
        } else {
            (n + 1) as u64
        },
{
    n.saturating_add(1)
}

/// Counts with one more.
pub open spec fn counted(s: ToolStats, what: Count) -> ToolStats {
    match what {
        Count::Call => ToolStats { total_calls: one_more(s.total_calls), ..s },
        Count::Success => ToolStats { successes: one_more(s.successes), ..s },
        Count::Failure => ToolStats { failures: one_more(s.failures), ..s },
    }
}

/// The profile with one more of a tool.
pub open spec fn tallied(p: ProfileView, name: Seq<char>, what: Count) -> ProfileView {
    ProfileView {
        tool_stats: with_stats(p.tool_stats, name, counted(stats_of(p.tool_stats, name), what)),
        ..p
    }
}

/// The profile once a run ended.
pub open spec fn run_ended(p: ProfileView, now: Seq<char>) -> ProfileView {
    ProfileView { total_sessions: (p.total_sessions + 1) as u64, updated_at: now, ..p }
}

/// Whether a synthesis is due.
pub open spec fn is_due(p: ProfileView) -> bool {
    p.total_sessions - p.last_synthesis_session >= SYNTHESIS_INTERVAL
}

/// The conversation with the profile in front, and no other message with a
/// profile.
pub open spec fn profiled(v: Seq<RecordView>, message: Seq<char>) -> Seq<RecordView> {
    memory::without_marked(v, PROFILE_MARKER@).insert(0, memory::record(Role::System, message))
}

// ── Synthesis ───────────────────────────────────────────────────────────

/// What a synthesis found.
pub struct SynthesisUpdate {
    pub preferences: Vec<String>,
    pub avoidances: Vec<String>,
    pub expertise_signals: Vec<String>,
    pub coding_conventions: Vec<String>,
    pub verbosity: Verbosity,
    pub language_preference: String,
}

/// What was found, or what was known where nothing was found.
pub open spec fn found_or(found: Seq<Seq<char>>, known: Seq<Seq<char>>) -> Seq<Seq<char>> {
    if found.len() > 0 {
        found
    } else {
        known
    }
}

/// The profile with what a synthesis found: what it found nothing of stays.
pub open spec fn merged(p: ProfileView, u: SynthesisUpdate, now: Seq<char>) -> ProfileView {
    ProfileView {
        preferences: found_or(text::texts(u.preferences@), p.preferences),
        avoidances: found_or(text::texts(u.avoidances@), p.avoidances),
        expertise_signals: found_or(text::texts(u.expertise_signals@), p.expertise_signals),
        coding_conventions: found_or(text::texts(u.coding_conventions@), p.coding_conventions),
        verbosity: u.verbosity,
        language_preference: if u.language_preference@.len() > 0 {
            u.language_preference@
        } else {
            p.language_preference
        },
        last_synthesis_session: p.total_sessions,
        updated_at: now,
        ..p
    }
}

/// Whether a message is a part of the talk with the user.
pub open spec fn is_talk(m: RecordView) -> bool {
    m.role == Role::User || m.role == Role::Assistant
}

/// A message as a synthesis sees it.
pub open spec fn context_line(m: RecordView) -> Seq<char> {
    "["@ + (if m.role == Role::User {
        "User"@
    } else {
        "Assistant"@
    }) + "]: "@ + m.content.take(
        text::floor_index(m.content, SYNTHESIS_MSG_MAX_BYTES as nat),
    )
}

/// The latest `n` messages of the talk, newest first, as a synthesis sees
/// them.
pub open spec fn context_lines(v: Seq<RecordView>, n: nat) -> Seq<Seq<char>>
    decreases v.len(),
{
    if v.len() == 0 || n == 0 {
        Seq::empty()
    } else if is_talk(v.last()) {
        seq![context_line(v.last())] + context_lines(v.drop_last(), (n - 1) as nat)
    } else {
        context_lines(v.drop_last(), n)
    }
}

/// What the model is asked for a synthesis.
pub open spec fn synthesis_prompt(profile_json: Seq<char>, context: Seq<char>) -> Seq<char> {
    PROMPT_HEAD@ + profile_json + PROMPT_MIDDLE@ + context + PROMPT_TAIL@
}

/// The start of the synthesis prompt, in front of the profile.
pub const PROMPT_HEAD: &'static str = "You are analysing a user's interaction patterns with an AI coding assistant.\n\n## Current profile\n\n```json\n";

/// The part of the synthesis prompt between the profile and the context.
pub const PROMPT_MIDDLE: &'static str = "\n```\n\n## Recent conversation context\n\n";

/// The end of the synthesis prompt, behind the context.
pub const PROMPT_TAIL: &'static str = "\n\n## Task\n\nBased EXCLUSIVELY on the conversation context above, update the\nfollowing profile fields.  Be conservative — only add signals clearly\nsupported by concrete evidence in the conversation.  Merge new\ninsights with existing values — do NOT discard valid previous\nobservations unless the conversation explicitly contradicts them.\n\nReturn ONLY valid JSON (no markdown, no preamble) with these fields:\n\n- \"preferences\": array of strings — what the user clearly prefers\n  (e.g. \"先解释再写代码\", \"functional patterns\")\n- \"avoidances\": array of strings — things the user clearly avoids\n  or dislikes (e.g. \"过度抽象\", \"unsafe code\")\n- \"expertise_signals\": array of strings — demonstrable skill level\n  indicators (e.g. \"Rust 中级\", \"TypeScript 新手\")\n- \"coding_conventions\": array of strings — observed coding style\n  (e.g. \"snake_case\", \"中文注释\", \"2-space indent\")\n- \"verbosity\": one of \"concise\", \"normal\", \"detailed\" —\n  inferred from whether the user asks for more or less detail\n- \"language_preference\": \"zh-CN\" or \"en-US\"\n\nIf there is no new evidence for a field, return an empty array (or\nthe current verbosity / language_preference value unchanged).  Do NOT\ninvent signals.";

/// What the model is asked for a synthesis.
pub fn build_synthesis_prompt(profile_json: &str, context: &str) -> (r: String)
    ensures
        r@ == synthesis_prompt(profile_json@, context@),
{
    text::cat5(PROMPT_HEAD, profile_json, PROMPT_MIDDLE, context, PROMPT_TAIL)
}

fn context_line_of(m: &Message) -> (r: String)
    requires
        is_talk(m@),
    ensures
        r@ == context_line(m@),
{
    let label = if m.role == Role::User {
        "User"
    } else {
        "Assistant"
    };
    if text::byte_len_of(m.content.as_str()) <= SYNTHESIS_MSG_MAX_BYTES {
        assert(m@.content.take(m@.content.len() as int) =~= m@.content);
        return text::cat4("[", label, "]: ", m.content.as_str());
    }
    let cs = text::chars_of(m.content.as_str());
    let k: usize = text::floor_chars(&cs, SYNTHESIS_MSG_MAX_BYTES);
    assert(cs@.subrange(0, k as int) =~= m@.content.take(k as int));
    text::cat4("[", label, "]: ", text::string_of_range(&cs, 0, k).as_str())
}

/// The latest messages of the talk, newest first, as a synthesis sees them.
pub fn synthesis_context(v: &Vec<Message>) -> (r: String)
    ensures
        r@ == text::joined(
            context_lines(memory::records(v@), SYNTHESIS_CONTEXT_SIZE as nat),
            "\n\n"@,
        ),
{
    let ghost all = memory::records(v@);
    let ghost want = context_lines(all, SYNTHESIS_CONTEXT_SIZE as nat);
    let mut lines: Vec<String> = Vec::new();
    let mut left: usize = SYNTHESIS_CONTEXT_SIZE;
    let mut i: usize = v.len();
    assert(all.take(i as int) =~= all);
    assert(text::texts(lines@) + want =~= want);
    while i > 0 && left > 0
        invariant
            i <= v@.len(),
            all == memory::records(v@),
            text::texts(lines@) + context_lines(all.take(i as int), left as nat) == want,
        decreases i,
    {
        let ghost before = text::texts(lines@);
        let ghost here = all.take(i as int);
        i = i - 1;
        assert(here.drop_last() =~= all.take(i as int));
        assert(here.last() == v@[i as int]@);
        if v[i].role == Role::User || v[i].role == Role::Assistant {
            let line = context_line_of(&v[i]);
            text::push_text(&mut lines, line);
            left = left - 1;
            assert(text::texts(lines@) + context_lines(all.take(i as int), left as nat) =~= before
                + context_lines(here, (left + 1) as nat));
        }
    }
    assert(text::texts(lines@) + Seq::<Seq<char>>::empty() =~= text::texts(lines@));
    text::join(&lines, "\n\n")
}

// ── Reading the answer ──────────────────────────────────────────────────

/// The position of the last `c` in `s`, or -1.
pub open spec fn last_char(s: Seq<char>, c: char) -> int
    decreases s.len(),
{
    if s.len() == 0 {
        -1
    } else if s.last() == c {
        s.len() - 1
    } else {
        last_char(s.drop_last(), c)
    }
}

/// The position of the first `p` in `s` from `i` on, or the length of `s`.
pub open spec fn first_at(s: Seq<char>, p: Seq<char>, i: int) -> int
    decreases s.len() - i,
{
    if i >= s.len() || text::occurs_at(s, p, i) {
        if i < s.len() {
            i
        } else {
            s.len() as int
        }
    } else {
        first_at(s, p, i + 1)
    }
}

/// The text from the first brace to the last one.
pub open spec fn braced(s: Seq<char>) -> Option<Seq<char>> {
    let open = text::first_char(s, '{');
    let close = last_char(s, '}');
    if open < close {
        Some(s.subrange(open, close + 1))
    } else {
        None
    }
}

/// Where the JSON object of an answer stands: in a fence for JSON, where
/// there is one that is closed; else from the first brace to the last.
pub open spec fn json_object(s: Seq<char>) -> Option<Seq<char>> {
    let start = first_at(s, "```json"@, 0);
    if start < s.len() {
        let end = first_at(s, "```"@, start + 7);
        if end < s.len() {
            Some(text::trimmed(s.subrange(start + 7, end)))
        } else {
            braced(s)
        }
    } else {
        braced(s)
    }
}

fn find_from(s: &Vec<char>, p: &Vec<char>, from: usize) -> (r: usize)
    requires
        from <= s@.len(),
    ensures
        r == first_at(s@, p@, from as int),
        from <= r <= s@.len(),
        r < s@.len() ==> text::occurs_at(s@, p@, r as int),
{
    let mut i: usize = from;
    while i < s.len()
        invariant
            from <= i <= s@.len(),
            first_at(s@, p@, i as int) == first_at(s@, p@, from as int),
        decreases s@.len() - i,
    {
        if text::matches_at(s, p, i) {
            return i;
        }
        i = i + 1;
    }
    i
}

fn find_last(s: &Vec<char>, c: char) -> (r: Option<usize>)
    ensures
        match r {
            Some(i) => i < s@.len() && i == last_char(s@, c),
            None => last_char(s@, c) == -1,
        },
{
    let mut i: usize = s.len();
    assert(s@.take(i as int) =~= s@);
    while i > 0
        invariant
            i <= s@.len(),
            last_char(s@.take(i as int), c) == last_char(s@, c),
        decreases i,
    {
        assert(s@.take(i as int).drop_last() =~= s@.take(i - 1));
        if s[i - 1] == c {
            return Some(i - 1);
        }
        i = i - 1;
    }
    None
}

fn find_braced(cs: &Vec<char>) -> (r: Option<String>)
    ensures
        text::opt_text(r) == braced(cs@),
{
    let n: usize = cs.len();
    let open: usize = text::find_char(cs, '{', 0);
    assert(cs@.skip(0) =~= cs@);
    match find_last(cs, '}') {
        Some(close) => {
            if open < close && close < n {
                Some(text::string_of_range(cs, open, close + 1))
            } else {
                None
            }
        },
        None => None,
    }
}

/// The JSON object of an answer, or `None` where there is none.
pub fn extract_json_object(s: &str) -> (r: Option<String>)
    ensures
        text::opt_text(r) == json_object(s@),
{
    let cs = text::chars_of(s);
    let fence = text::chars_of("```json");
    let close = text::chars_of("```");
    proof {
        reveal_strlit("```json");
        reveal_strlit("```");
    }
    let start: usize = find_from(&cs, &fence, 0);
    if start < cs.len() {
        let body: usize = start + 7;
        let end: usize = find_from(&cs, &close, body);
        if end < cs.len() {
            let inner = text::string_of_range(&cs, body, end);
            return Some(text::trim(inner.as_str()));
        }
    }
    find_braced(&cs)
}

// ── The hook ────────────────────────────────────────────────────────────

/// Gathers the profile.
pub struct ProfileHook {
    pub profile: Profile,
}

impl ProfileHook {
    /// A hook with a profile.
    pub fn new(profile: Profile) -> (r: ProfileHook)
        ensures
            r.profile == profile,
    {
        ProfileHook { profile }
    }

    /// A run begins with an input of the user.
    pub fn on_run_start(&mut self, user_input: &str)
        ensures
            final(self).profile@ == (ProfileView {
                language_preference: noticed_language(
                    old(self).profile@.language_preference,
                    user_input@,
                ),
                ..old(self).profile@
            }),
    {
        if has_cjk(user_input) {
            self.profile.language_preference = "zh-CN".to_owned();
        }
    }

    /// A run ended. Returns whether a synthesis is due.
    pub fn on_run_finish(&mut self, now: &str) -> (r: bool)
        requires
            old(self).profile@.wf(),
            old(self).profile@.total_sessions < u64::MAX,
        ensures
            final(self).profile@ == run_ended(old(self).profile@, now@),
            final(self).profile@.wf(),
            r == is_due(final(self).profile@),
    {
        self.profile.total_sessions = self.profile.total_sessions + 1;
        self.profile.updated_at = now.to_owned();
        self.profile.total_sessions - self.profile.last_synthesis_session >= SYNTHESIS_INTERVAL
    }

    fn tally(&mut self, name: &str, what: Count)
        ensures
            final(self).profile@ == tallied(old(self).profile@, name@, what),
    {
        let ghost all = stats_view(self.profile.tool_stats@);
        let ghost s = stats_of(all, name@);
        let ghost n = counted(s, what);
        let len: usize = self.profile.tool_stats.len();
        let mut i: usize = 0;
        assert(all.skip(0) =~= all);
        assert(all.take(0) + with_stats(all, name@, n) =~= with_stats(all, name@, n));
        while i < len && !text::same_text(self.profile.tool_stats[i].0.as_str(), name)
            invariant
                i <= len,
                len == self.profile.tool_stats@.len(),
                all == stats_view(self.profile.tool_stats@),
                self.profile == old(self).profile,
                stats_of(all.skip(i as int), name@) == s,
                all.take(i as int) + with_stats(all.skip(i as int), name@, n) == with_stats(
                    all,
                    name@,
                    n,
                ),
            decreases len - i,
        {
            let ghost rest = all.skip(i as int);
            assert(rest[0] == (
                self.profile.tool_stats@[i as int].0@,
                self.profile.tool_stats@[i as int].1,
            ));
            assert(rest.skip(1) =~= all.skip(i + 1));
            assert(all.take(i as int) + (seq![rest[0]] + with_stats(rest.skip(1), name@, n))
                =~= all.take(i + 1) + with_stats(all.skip(i + 1), name@, n));
            i = i + 1;
        }
        let ghost rest = all.skip(i as int);
        if i < len {
            assert(rest[0] == (
                self.profile.tool_stats@[i as int].0@,
                self.profile.tool_stats@[i as int].1,
            ));
        }
        let mut stats: ToolStats = if i < len {
            self.profile.tool_stats[i].1
        } else {
            ToolStats::fresh()
        };
        assert(stats == s);
        match what {
            Count::Call => {
                stats.total_calls = one_more(stats.total_calls);
            },
            Count::Success => {
                stats.successes = one_more(stats.successes);
            },
            Count::Failure => {
                stats.failures = one_more(stats.failures);
            },
        }
        let entry = (name.to_owned(), stats);
        if i < len {
            self.profile.tool_stats.set(i, entry);
            assert(stats_view(self.profile.tool_stats@) =~= all.take(i as int) + (seq![(name@, n)]
                + rest.skip(1)));
        } else {
            self.profile.tool_stats.push(entry);
            assert(stats_view(self.profile.tool_stats@) =~= all.take(i as int) + seq![(name@, n)]);
        }
    }

    /// A tool is called. The call is never held up.
    pub fn before_tool_call(&mut self, call: &ToolCallRef)
        ensures
            final(self).profile@ == tallied(old(self).profile@, call@.name, Count::Call),
    {
        self.tally(call.name.as_str(), Count::Call);
    }

    /// A tool call succeeded.
    pub fn after_tool_call(&mut self, call: &ToolCallRef)
        ensures
            final(self).profile@ == tallied(old(self).profile@, call@.name, Count::Success),
    {
        self.tally(call.name.as_str(), Count::Success);
    }

    /// A tool call failed.
    pub fn on_tool_failed(&mut self, call: &ToolCallRef)
        ensures
            final(self).profile@ == tallied(old(self).profile@, call@.name, Count::Failure),
    {
        self.tally(call.name.as_str(), Count::Failure);
    }

    /// Puts the message with the profile in front, before the model is
    /// called.
    pub fn on_llm_start(&self, message: String, messages: &mut Vec<Message>)
        ensures
            memory::records(final(messages)@) == profiled(
                memory::records(old(messages)@),
                message@,
            ),
    {
        remove_marked(messages, PROFILE_MARKER);
        insert_record(messages, 0, Message::new(Role::System, message));
    }

    /// What the model is asked for a synthesis, out of the profile as JSON
    /// and the conversation.
    pub fn synthesis_request(&self, profile_json: &str, messages: &Vec<Message>) -> (r: String)
        ensures
            r@ == synthesis_prompt(
                profile_json@,
                text::joined(
                    context_lines(memory::records(messages@), SYNTHESIS_CONTEXT_SIZE as nat),
                    "\n\n"@,
                ),
            ),
    {
        build_synthesis_prompt(profile_json, synthesis_context(messages).as_str())
    }

    /// Takes in what a synthesis found. Without a result the next run asks
    /// again.
    pub fn merge(&mut self, update: Option<SynthesisUpdate>, now: &str)
        ensures
            final(self).profile@ == match update {
                Some(u) => merged(old(self).profile@, u, now@),
                None => old(self).profile@,
            },
            old(self).profile@.wf() ==> final(self).profile@.wf(),
    {
        match update {
            Some(u) => {
                let ghost before = self.profile@;
                assert(text::texts(u.preferences@).len() == u.preferences@.len());
                assert(text::texts(u.avoidances@).len() == u.avoidances@.len());
                assert(text::texts(u.expertise_signals@).len() == u.expertise_signals@.len());
                assert(text::texts(u.coding_conventions@).len() == u.coding_conventions@.len());
                if u.preferences.len() > 0 {
                    self.profile.preferences = u.preferences;
                }
                if u.avoidances.len() > 0 {
                    self.profile.avoidances = u.avoidances;
                }
                if u.expertise_signals.len() > 0 {
                    self.profile.expertise_signals = u.expertise_signals;
                }
                if u.coding_conventions.len() > 0 {
                    self.profile.coding_conventions = u.coding_conventions;
                }
                self.profile.verbosity = u.verbosity;
                if !u.language_preference.as_str().is_empty() {
                    self.profile.language_preference = u.language_preference;
                }
                self.profile.last_synthesis_session = self.profile.total_sessions;
                self.profile.updated_at = now.to_owned();
            },
            None => {},
        }
    }
}

// ── Laws ────────────────────────────────────────────────────────────────

/// Once Chinese was noticed, it is kept, whatever the user writes.
pub proof fn law_language_is_kept(input: Seq<char>)
    ensures
        noticed_language("zh-CN"@, input) == "zh-CN"@,
{
}

proof fn lemma_with_stats(
    v: Seq<(Seq<char>, ToolStats)>,
    name: Seq<char>,
    s: ToolStats,
    other: Seq<char>,
)
    ensures
        stats_of(with_stats(v, name, s), name) == s,
        other != name ==> stats_of(with_stats(v, name, s), other) == stats_of(v, other),
    decreases v.len(),
{
    let w = with_stats(v, name, s);
    if v.len() == 0 {
        assert(w.skip(1) =~= v);
    } else if v[0].0 == name {
        assert(w.skip(1) =~= v.skip(1));
    } else {
        lemma_with_stats(v.skip(1), name, s, other);
        assert(w.skip(1) =~= with_stats(v.skip(1), name, s));
    }
}

/// Tools are counted apart: a count of one tool changes no count of another.
pub proof fn law_tools_are_counted_apart(
    p: ProfileView,
    name: Seq<char>,
    what: Count,
    other: Seq<char>,
)
    requires
        other != name,
    ensures
        stats_of(tallied(p, name, what).tool_stats, name) == counted(
            stats_of(p.tool_stats, name),
            what,
        ),
        stats_of(tallied(p, name, what).tool_stats, other) == stats_of(p.tool_stats, other),
{
    lemma_with_stats(p.tool_stats, name, counted(stats_of(p.tool_stats, name), what), other);
}

/// A synthesis is due again only after the interval: right after one it is
/// not, and neither after fewer runs.
pub proof fn law_synthesis_waits(p: ProfileView, u: SynthesisUpdate, now: Seq<char>)
    ensures
        !is_due(merged(p, u, now)),
        p.total_sessions < u64::MAX && p.total_sessions - p.last_synthesis_session
            < SYNTHESIS_INTERVAL - 1 ==> !is_due(run_ended(p, now)),
        p.total_sessions < u64::MAX && p.total_sessions - p.last_synthesis_session
            >= SYNTHESIS_INTERVAL - 1 ==> is_due(run_ended(p, now)),
{
}

/// A synthesis that found nothing keeps what was known.
pub proof fn law_nothing_found_keeps_the_known(p: ProfileView, u: SynthesisUpdate, now: Seq<char>)
    requires
        u.preferences@.len() == 0,
        u.avoidances@.len() == 0,
        u.expertise_signals@.len() == 0,
        u.coding_conventions@.len() == 0,
    ensures
        ({
            let q = merged(p, u, now);
            &&& q.preferences == p.preferences
            &&& q.avoidances == p.avoidances
            &&& q.expertise_signals == p.expertise_signals
            &&& q.coding_conventions == p.coding_conventions
            &&& q.tool_stats == p.tool_stats
        }),
{
}

/// Exactly one message shows the profile, in front; the other messages are
/// kept, in order.
pub proof fn law_one_profile_message(v: Seq<RecordView>, message: Seq<char>)
    requires
        text::begins_with(message, PROFILE_MARKER@),
    ensures
        ({
            let w = profiled(v, message);
            let rest = memory::without_marked(v, PROFILE_MARKER@);
            &&& w.len() == rest.len() + 1
            &&& memory::is_marked(w[0], PROFILE_MARKER@)
            &&& memory::without_marked(w, PROFILE_MARKER@) == rest
        }),
{
    let rest = memory::without_marked(v, PROFILE_MARKER@);
    let m = memory::record(Role::System, message);
    memory::law_marked_come_and_go(rest, 0, m, PROFILE_MARKER@);
    assert forall|i: int| 0 <= i < rest.len() implies !memory::is_marked(
        #[trigger] rest[i],
        PROFILE_MARKER@,
    ) by {
        memory::law_marked_are_gone(v, PROFILE_MARKER@, i);
    }
    memory::law_unmarked_are_kept(rest, PROFILE_MARKER@);
}

/// What is taken for the object of an answer without a fence begins and ends
/// with a brace.
pub proof fn law_braced_is_in_braces(s: Seq<char>)
    ensures
        braced(s) matches Some(t) ==> t.len() >= 2 && t[0] == '{' && t.last() == '}',
{
    text::lemma_first_char(s, '{');
    lemma_last_char(s, '}');
}

proof fn lemma_last_char(s: Seq<char>, c: char)
    ensures
        -1 <= last_char(s, c) < s.len(),
        last_char(s, c) >= 0 ==> s[last_char(s, c)] == c,
    decreases s.len(),
{
    if s.len() > 0 && s.last() != c {
        lemma_last_char(s.drop_last(), c);
    }
}

} // verus!
