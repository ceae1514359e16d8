//! Classifies shell commands.
//!
//! 1. Strict allowlist: where one is set, any other binary is blocked.
//! 2. Deny patterns: a command that matches one is blocked.
//! 3. Auto-approve prefixes: a command whose first word is one runs.
//! 4. Anything else needs the user's approval.

use vstd::prelude::*;
use crate::sandbox::config::SandboxConfig;
use crate::text;

verus! {

/// What becomes of a command.
#[derive(Clone, Debug, PartialEq, Eq)]
pub enum CommandVerdict {
    /// It runs without confirmation.
    AutoApproved,
    /// It runs once the user confirms it.
    RequiresApproval,
    /// It does not run.
    Blocked { reason: String },
}

/// What a verdict holds.
pub enum VerdictView {
    AutoApproved,
    RequiresApproval,
    Blocked { reason: Seq<char> },
}

impl View for CommandVerdict {
    type V = VerdictView;

    open spec fn view(&self) -> VerdictView {
        match self {
            CommandVerdict::AutoApproved => VerdictView::AutoApproved,
            CommandVerdict::RequiresApproval => VerdictView::RequiresApproval,
            CommandVerdict::Blocked { reason } => VerdictView::Blocked { reason: reason@ },
        }
    }
}

/// Whether `regex` compiles a pattern.
pub uninterp spec fn regex_compiles(pattern: Seq<char>) -> bool;

/// `regex::Regex::new`: whether it accepts `pattern`, a function of the
/// pattern alone. Nothing is said of which patterns those are.
#[verifier::external_body]
fn is_valid_regex(pattern: &str) -> (r: bool)
    ensures
        r == regex_compiles(pattern@),
{
    regex::Regex::new(pattern).is_ok()
}

/// Whether a pattern matches somewhere in a text.
pub uninterp spec fn regex_matches(pattern: Seq<char>, s: Seq<char>) -> bool;

/// `regex::Regex::is_match`, of the expression that `pattern` compiles to:
/// whether it matches anywhere in `s`, a function of both. A pattern that
/// does not compile matches nothing.
#[verifier::external_body]
fn is_regex_match(pattern: &str, s: &str) -> (r: bool)
    ensures
        r == regex_matches(pattern@, s@),
        r ==> regex_compiles(pattern@),
{
    match regex::Regex::new(pattern) {
        Ok(re) => re.is_match(s),
        Err(_) => false,
    }
}

/// The policy for shell commands.
#[derive(Debug)]
pub struct ShellFilter {
    pub auto_approve_prefixes: Vec<String>,
    /// The deny patterns that compile, in order.
    pub deny_patterns: Vec<String>,
    /// The allowlist, where there is one.
    pub allow_binaries: Option<Vec<String>>,
}

/// What the policy holds.
pub struct FilterView {
    pub auto_approve_prefixes: Seq<Seq<char>>,
    pub deny_patterns: Seq<Seq<char>>,
    pub allow_binaries: Option<Seq<Seq<char>>>,
}

impl View for ShellFilter {
    type V = FilterView;

    open spec fn view(&self) -> FilterView {
        FilterView {
            auto_approve_prefixes: text::texts(self.auto_approve_prefixes@),
            deny_patterns: text::texts(self.deny_patterns@),
            allow_binaries: match self.allow_binaries {
                Some(v) => Some(text::texts(v@)),
                None => None,
            },
        }
    }
}

/// The patterns that compile, in order.
pub open spec fn valid_patterns(patterns: Seq<Seq<char>>) -> Seq<Seq<char>>
    decreases patterns.len(),
{
    if patterns.len() == 0 {
        patterns
    } else if regex_compiles(patterns.last()) {
        valid_patterns(patterns.drop_last()).push(patterns.last())
    } else {
        valid_patterns(patterns.drop_last())
    }
}

/// The binary that a command starts: its first word, or what stands in
/// quotes where it starts with a quote.
pub open spec fn binary_of(command: Seq<char>) -> Seq<char> {
    let t = text::trimmed(command);
    if text::first_is(t, '"') {
        let rest = t.skip(1);
        rest.take(text::first_char(rest, '"'))
    } else {
        t.take(text::first_space(t))
    }
}

/// Whether a command is one of an approved prefix: the prefix is its binary,
/// or the command starts with it and a space or the end follows.
pub open spec fn is_approved_by(command: Seq<char>, prefix: Seq<char>) -> bool {
    ||| binary_of(command) == prefix
    ||| text::begins_with(command, prefix) && (command.len() == prefix.len()
        || command[prefix.len() as int] == ' ')
}

/// Whether the allowlist lets a binary run.
pub open spec fn is_allowed(filter: FilterView, binary: Seq<char>) -> bool {
    match filter.allow_binaries {
        Some(allowed) => allowed.contains(binary),
        None => true,
    }
}

/// The first deny pattern that a command matches, or `None`.
pub open spec fn first_denial(patterns: Seq<Seq<char>>, command: Seq<char>) -> Option<int>
    decreases patterns.len(),
{
    if patterns.len() == 0 {
        None
    } else {
        match first_denial(patterns.drop_last(), command) {
            Some(i) => Some(i),
            None => if regex_matches(patterns.last(), command) {
                Some(patterns.len() - 1)
            } else {
                None
            },
        }
    }
}

/// The verdict on a command of which `denied` is the first deny pattern that
/// it matches.
pub open spec fn verdict(filter: FilterView, command: Seq<char>, denied: Option<int>) -> VerdictView {
    if !is_allowed(filter, binary_of(command)) {
        VerdictView::Blocked {
            reason: "'"@ + binary_of(command) + "' is not in the allowed-commands list"@,
        }
    } else {
        match denied {
            Some(i) => VerdictView::Blocked {
                reason: "command matches deny-pattern '"@ + filter.deny_patterns[i] + "'"@,
            },
            None => if exists|i: int|
                0 <= i < filter.auto_approve_prefixes.len() && is_approved_by(
                    command,
                    #[trigger] filter.auto_approve_prefixes[i],
                ) {
                VerdictView::AutoApproved
            } else {
                VerdictView::RequiresApproval
            },
        }
    }
}

/// The verdict on a command.
pub open spec fn classified(filter: FilterView, command: Seq<char>) -> VerdictView {
    verdict(filter, command, first_denial(filter.deny_patterns, command))
}

/// The binary that `command` starts.
pub fn extract_binary(command: &str) -> (r: String)
    ensures
        r@ == binary_of(command@),
{
    let t = text::trim(command);
    let cs = text::chars_of(t.as_str());
    if cs.len() > 0 && cs[0] == '"' {
        let end: usize = text::find_char(&cs, '"', 1);
        proof {
            let rest = cs@.skip(1);
            text::lemma_first_char(rest, '"');
            assert(cs@.subrange(1, end as int) =~= rest.take(end - 1));
        }
        text::string_of_range(&cs, 1, end)
    } else {
        let end: usize = text::find_space(&cs);
        assert(cs@.subrange(0, end as int) =~= cs@.take(end as int));
        text::string_of_range(&cs, 0, end)
    }
}

fn approves(command: &str, prefix: &str) -> (r: bool)
    ensures
        r == is_approved_by(command@, prefix@),
{
    let binary = extract_binary(command);
    if text::same_text(binary.as_str(), prefix) {
        return true;
    }
    let cs = text::chars_of(command);
    let ps = text::chars_of(prefix);
    text::matches_at(&cs, &ps, 0) && (cs.len() == ps.len() || cs[ps.len()] == ' ')
}

/// The policy of a configuration: without an allowlist where the list of
/// allowed binaries is empty.
pub open spec fn filter_of(config: SandboxConfig) -> FilterView {
    FilterView {
        auto_approve_prefixes: text::texts(config.auto_approve_prefixes@),
        deny_patterns: valid_patterns(text::texts(config.deny_patterns@)),
        allow_binaries: if config.allowed_binaries@.len() == 0 {
            None
        } else {
            Some(text::texts(config.allowed_binaries@))
        },
    }
}

impl ShellFilter {
    /// The policy of a configuration. Deny patterns that do not compile are
    /// left out.
    pub fn from_config(config: &SandboxConfig) -> (r: ShellFilter)
        ensures
            r@ == filter_of(*config),
    {
        let mut deny_patterns: Vec<String> = Vec::new();
        let ghost all = text::texts(config.deny_patterns@);
        let mut i: usize = 0;
        assert(text::texts(deny_patterns@) =~= valid_patterns(all.take(0)));
        while i < config.deny_patterns.len()
            invariant
                i <= config.deny_patterns@.len(),
                all == text::texts(config.deny_patterns@),
                text::texts(deny_patterns@) == valid_patterns(all.take(i as int)),
            decreases config.deny_patterns@.len() - i,
        {
            assert(all.take(i + 1).drop_last() =~= all.take(i as int));
            assert(all.take(i + 1).last() == config.deny_patterns@[i as int]@);
            if is_valid_regex(config.deny_patterns[i].as_str()) {
                text::push_text(&mut deny_patterns, config.deny_patterns[i].clone());
            }
            i = i + 1;
        }
        assert(all.take(i as int) =~= all);
        let allow_binaries = if config.allowed_binaries.len() == 0 {
            None
        } else {
            Some(text::clone_texts(&config.allowed_binaries))
        };
        ShellFilter {
            auto_approve_prefixes: text::clone_texts(&config.auto_approve_prefixes),
            deny_patterns,
            allow_binaries,
        }
    }

    /// The first deny pattern that `command` matches.
    pub fn find_denial(&self, command: &str) -> (r: Option<usize>)
        ensures
            match r {
                Some(i) => first_denial(self@.deny_patterns, command@) == Some(i as int) && i
                    < self@.deny_patterns.len(),
                None => first_denial(self@.deny_patterns, command@) is None,
            },
    {
        let ghost all = self@.deny_patterns;
        let mut i: usize = 0;
        assert(all.take(0) =~= Seq::<Seq<char>>::empty());
        while i < self.deny_patterns.len()
            invariant
                i <= self.deny_patterns@.len(),
                all == self@.deny_patterns,
                first_denial(all.take(i as int), command@) is None,
            decreases self.deny_patterns@.len() - i,
        {
            assert(all.take(i + 1).drop_last() =~= all.take(i as int));
            assert(all.take(i + 1).last() == self.deny_patterns@[i as int]@);
            if is_regex_match(self.deny_patterns[i].as_str(), command) {
                proof {
                    lemma_first_denial_stays(all, command@, i + 1, i as int);
                }
                return Some(i);
            }
            i = i + 1;
        }
        assert(all.take(i as int) =~= all);
        None
    }

    /// The verdict on `command`, of which `denied` is the first deny pattern
    /// that it matches.
    pub fn decide(&self, command: &str, denied: Option<usize>) -> (r: CommandVerdict)
        requires
            denied matches Some(i) ==> i < self.deny_patterns@.len(),
        ensures
            r@ == verdict(
                self@,
                command@,
                match denied {
                    Some(i) => Some(i as int),
                    None => None,
                },
            ),
    {
        let binary = extract_binary(command);
        match &self.allow_binaries {
            Some(allowed) => {
                let ghost names = text::texts(allowed@);
                let mut found = false;
                let mut i: usize = 0;
                while i < allowed.len()
                    invariant
                        i <= allowed@.len(),
                        names == text::texts(allowed@),
                        found == exists|k: int| 0 <= k < i && #[trigger] names[k] == binary@,
                    decreases allowed@.len() - i,
                {
                    assert(names[i as int] == allowed@[i as int]@);
                    if text::same_text(allowed[i].as_str(), binary.as_str()) {
                        found = true;
                    }
                    i = i + 1;
                }
                if !found {
                    assert(!names.contains(binary@));
                    return CommandVerdict::Blocked {
                        reason: text::cat3(
                            "'",
                            binary.as_str(),
                            "' is not in the allowed-commands list",
                        ),
                    };
                }
                assert(names.contains(binary@));
            },
            None => {},
        }
        match denied {
            Some(i) => {
                assert(self@.deny_patterns[i as int] == self.deny_patterns@[i as int]@);
                return CommandVerdict::Blocked {
                    reason: text::cat3(
                        "command matches deny-pattern '",
                        self.deny_patterns[i].as_str(),
                        "'",
                    ),
                };
            },
            None => {},
        }
        assert(is_allowed(self@, binary_of(command@)));
        let ghost prefixes = self@.auto_approve_prefixes;
        let mut i: usize = 0;
        while i < self.auto_approve_prefixes.len()
            invariant
                i <= self.auto_approve_prefixes@.len(),
                prefixes == self@.auto_approve_prefixes,
                is_allowed(self@, binary_of(command@)),
                denied is None,
                forall|k: int|
                    0 <= k < i ==> !is_approved_by(command@, #[trigger] prefixes[k]),
            decreases self.auto_approve_prefixes@.len() - i,
        {
            assert(prefixes[i as int] == self.auto_approve_prefixes@[i as int]@);
            if approves(command, self.auto_approve_prefixes[i].as_str()) {
                assert(is_approved_by(command@, self@.auto_approve_prefixes[i as int]));
                return CommandVerdict::AutoApproved;
            }
            i = i + 1;
        }
        CommandVerdict::RequiresApproval
    }

    /// Classifies `command`.
    pub fn classify(&self, command: &str) -> (r: CommandVerdict)
        ensures
            r@ == classified(self@, command@),
    {
        let denied = self.find_denial(command);
        self.decide(command, denied)
    }
}

proof fn lemma_first_denial_stays(patterns: Seq<Seq<char>>, command: Seq<char>, n: int, i: int)
    requires
        0 <= n <= patterns.len(),
        first_denial(patterns.take(n), command) == Some(i),
    ensures
        first_denial(patterns, command) == Some(i),
    decreases patterns.len() - n,
{
    if n == patterns.len() {
        assert(patterns.take(n) =~= patterns);
    } else {
        assert(patterns.take(n + 1).drop_last() =~= patterns.take(n));
        lemma_first_denial_stays(patterns, command, n + 1, i);
    }
}

proof fn lemma_some_denial(patterns: Seq<Seq<char>>, command: Seq<char>, k: int)
    requires
        0 <= k < patterns.len(),
        regex_matches(patterns[k], command),
    ensures
        first_denial(patterns, command) is Some,
    decreases patterns.len(),
{
    if k < patterns.len() - 1 {
        assert(patterns.drop_last()[k] == patterns[k]);
        lemma_some_denial(patterns.drop_last(), command, k);
    }
}

/// A command that matches a deny pattern never runs, approved or not.
pub proof fn law_denied_is_blocked(filter: FilterView, command: Seq<char>, k: int)
    requires
        0 <= k < filter.deny_patterns.len(),
        regex_matches(filter.deny_patterns[k], command),
    ensures
        classified(filter, command) is Blocked,
{
    lemma_some_denial(filter.deny_patterns, command, k);
}

/// Where there is an allowlist, only its binaries run.
pub proof fn law_allowlist_is_strict(filter: FilterView, command: Seq<char>)
    requires
        filter.allow_binaries matches Some(allowed) && !allowed.contains(binary_of(command)),
    ensures
        classified(filter, command) is Blocked,
{
}

/// A command is blocked for the allowlist or for a deny pattern, and for
/// nothing else.
pub proof fn law_blocked_has_a_reason(filter: FilterView, command: Seq<char>)
    requires
        classified(filter, command) is Blocked,
    ensures
        !is_allowed(filter, binary_of(command)) || first_denial(filter.deny_patterns, command)
            is Some,
{
}

proof fn lemma_first_denial(patterns: Seq<Seq<char>>, command: Seq<char>)
    ensures
        match first_denial(patterns, command) {
            Some(i) => 0 <= i < patterns.len() && regex_matches(patterns[i], command) && forall|k:
                int| 0 <= k < i ==> !regex_matches(#[trigger] patterns[k], command),
            None => forall|k: int|
                0 <= k < patterns.len() ==> !regex_matches(#[trigger] patterns[k], command),
        },
    decreases patterns.len(),
{
    if patterns.len() > 0 {
        let front = patterns.drop_last();
        lemma_first_denial(front, command);
        match first_denial(front, command) {
            Some(i) => {
                assert(front[i] == patterns[i]);
                assert forall|k: int| 0 <= k < i implies !regex_matches(
                    #[trigger] patterns[k],
                    command,
                ) by {
                    assert(front[k] == patterns[k]);
                }
            },
            None => {
                assert forall|k: int| 0 <= k < front.len() implies !regex_matches(
                    #[trigger] patterns[k],
                    command,
                ) by {
                    assert(front[k] == patterns[k]);
                }
            },
        }
    }
}

/// A command is blocked exactly where there is an allowlist on which no entry
/// is its binary, or where some deny pattern matches it.
pub proof fn law_blocked_exactly_where_it_is_forbidden(filter: FilterView, command: Seq<char>)
    ensures
        classified(filter, command) is Blocked <==> {
            ||| filter.allow_binaries matches Some(allowed) && forall|i: int|
                0 <= i < allowed.len() ==> #[trigger] allowed[i] != binary_of(command)
            ||| exists|k: int|
                0 <= k < filter.deny_patterns.len() && regex_matches(
                    #[trigger] filter.deny_patterns[k],
                    command,
                )
        },
{
    lemma_first_denial(filter.deny_patterns, command);
    if filter.allow_binaries is Some {
        let allowed = filter.allow_binaries->0;
        if exists|i: int| 0 <= i < allowed.len() && #[trigger] allowed[i] == binary_of(command) {
            let i = choose|i: int|
                0 <= i < allowed.len() && #[trigger] allowed[i] == binary_of(command);
            assert(allowed.contains(allowed[i]));
        }
    }
}

/// A command that nothing forbids runs by itself exactly where an approved
/// prefix is its binary, or is the command, or stands in front of it with a
/// space behind; else the user is asked.
pub proof fn law_approved_exactly_by_prefix(filter: FilterView, command: Seq<char>)
    requires
        !(classified(filter, command) is Blocked),
    ensures
        classified(filter, command) is AutoApproved <==> exists|i: int|
            #![trigger filter.auto_approve_prefixes[i]]
            0 <= i < filter.auto_approve_prefixes.len() && {
                let p = filter.auto_approve_prefixes[i];
                ||| binary_of(command) == p
                ||| command == p
                ||| exists|rest: Seq<char>| command == #[trigger] (p + seq![' '] + rest)
            },
        !(classified(filter, command) is AutoApproved) ==> classified(filter, command)
            is RequiresApproval,
{
    let prefixes = filter.auto_approve_prefixes;
    assert forall|i: int| 0 <= i < prefixes.len() implies is_approved_by(
        command,
        #[trigger] prefixes[i],
    ) == {
        let p = prefixes[i];
        ||| binary_of(command) == p
        ||| command == p
        ||| exists|rest: Seq<char>| command == #[trigger] (p + seq![' '] + rest)
    } by {
        let p = prefixes[i];
        if text::begins_with(command, p) {
            assert(command.subrange(0, p.len() as int) == p);
            if command.len() == p.len() {
                assert(command =~= p);
            } else if command[p.len() as int] == ' ' {
                let rest = command.skip(p.len() as int + 1);
                assert(command =~= p + seq![' '] + rest);
            }
        }
        if command == p {
            assert(command.subrange(0, p.len() as int) =~= p);
        }
        if exists|rest: Seq<char>| command == #[trigger] (p + seq![' '] + rest) {
            let rest = choose|rest: Seq<char>| command == #[trigger] (p + seq![' '] + rest);
            assert(command.subrange(0, p.len() as int) =~= p);
            assert(command[p.len() as int] == ' ');
        }
    }
}

/// The reason of a refusal names the binary that is not on the list, or the
/// first pattern that matches.
pub proof fn law_refusals_say_why(filter: FilterView, command: Seq<char>)
    ensures
        classified(filter, command) matches VerdictView::Blocked { reason } ==> {
            ||| reason == "'"@ + binary_of(command) + "' is not in the allowed-commands list"@ && (
            filter.allow_binaries matches Some(allowed) && !allowed.contains(binary_of(command)))
            ||| exists|k: int|
                #![trigger filter.deny_patterns[k]]
                0 <= k < filter.deny_patterns.len() && regex_matches(
                    filter.deny_patterns[k],
                    command,
                ) && reason == "command matches deny-pattern '"@ + filter.deny_patterns[k] + "'"@
                    && forall|j: int|
                    0 <= j < k ==> !regex_matches(#[trigger] filter.deny_patterns[j], command)
        },
{
    lemma_first_denial(filter.deny_patterns, command);
}

/// The binary of a command is its first word, whatever white space stands in
/// front of it and whatever follows.
pub proof fn law_binary_is_the_first_word(lead: Seq<char>, w: Seq<char>, rest: Seq<char>)
    requires
        text::is_blank(lead),
        w.len() > 0,
        w[0] != '"',
        forall|i: int| 0 <= i < w.len() ==> !text::is_space(#[trigger] w[i]),
        rest.len() > 0 ==> text::is_space(rest[0]),
    ensures
        binary_of(lead + w + rest) == w,
{
    assert(lead + w + rest =~= lead + (w + rest));
    assert((w + rest)[0] == w[0]);
    assert(!text::is_space(w[w.len() - 1]));
    text::lemma_lead_is_trimmed(lead, w + rest);
    let r = text::lemma_end_keeps(w, rest);
    let t = w + r;
    assert forall|i: int| 0 <= i < w.len() implies !text::is_space(#[trigger] t[i]) by {
        assert(t[i] == w[i]);
    }
    if r.len() > 0 {
        assert(t[w.len() as int] == rest[0]);
    }
    text::lemma_first_space_is(t, w.len() as int);
    assert(t.take(w.len() as int) =~= w);
}

/// The binary of a command that starts with a quote is what stands in the
/// quotes.
pub proof fn law_quoted_binary_is_what_is_quoted(lead: Seq<char>, w: Seq<char>, rest: Seq<char>)
    requires
        text::is_blank(lead),
        forall|i: int| 0 <= i < w.len() ==> #[trigger] w[i] != '"',
    ensures
        binary_of(lead + seq!['"'] + w + seq!['"'] + rest) == w,
{
    let q = seq!['"'] + w + seq!['"'];
    assert(lead + seq!['"'] + w + seq!['"'] + rest =~= lead + (q + rest));
    text::lemma_lead_is_trimmed(lead, q + rest);
    assert(q.last() == '"');
    let r = text::lemma_end_keeps(q, rest);
    let t = (q + r).skip(1);
    text::lemma_first_char(t, '"');
    assert(t[w.len() as int] == '"');
    assert forall|i: int| 0 <= i < w.len() implies #[trigger] t[i] != '"' by {
        assert(t[i] == w[i]);
    }
    assert(text::first_char(t, '"') == w.len());
    assert(t.take(w.len() as int) =~= w);
}

proof fn lemma_valid_patterns(patterns: Seq<Seq<char>>, p: Seq<char>)
    ensures
        valid_patterns(patterns).contains(p) <==> patterns.contains(p) && regex_compiles(p),
    decreases patterns.len(),
{
    if patterns.len() > 0 {
        let front = patterns.drop_last();
        lemma_valid_patterns(front, p);
        let v = valid_patterns(front);
        let last = patterns.last();
        if v.contains(p) {
            let i = choose|i: int| 0 <= i < v.len() && v[i] == p;
            assert(v.push(last)[i] == p);
        }
        assert(v.push(last)[v.len() as int] == last);
        if v.push(last).contains(p) {
            let i = choose|i: int| 0 <= i < v.push(last).len() && v.push(last)[i] == p;
            if i < v.len() {
                assert(v[i] == p);
            }
        }
        if front.contains(p) {
            let i = choose|i: int| 0 <= i < front.len() && front[i] == p;
            assert(patterns[i] == p);
        }
        assert(patterns[patterns.len() - 1] == last);
        if patterns.contains(p) {
            let i = choose|i: int| 0 <= i < patterns.len() && patterns[i] == p;
            if i < front.len() {
                assert(front[i] == p);
            }
        }
    }
}

/// A policy has the rules of its configuration: every deny pattern that
/// compiles and no other, every prefix, and the allowlist unless it is empty.
pub proof fn law_policy_has_the_configured_rules(config: SandboxConfig, p: Seq<char>)
    ensures
        filter_of(config).deny_patterns.contains(p) <==> text::texts(
            config.deny_patterns@,
        ).contains(p) && regex_compiles(p),
        filter_of(config).auto_approve_prefixes.contains(p) <==> text::texts(
            config.auto_approve_prefixes@,
        ).contains(p),
        filter_of(config).allow_binaries is None <==> config.allowed_binaries@.len() == 0,
        filter_of(config).allow_binaries matches Some(allowed) ==> (allowed.contains(p)
            <==> text::texts(config.allowed_binaries@).contains(p)),
{
    lemma_valid_patterns(text::texts(config.deny_patterns@), p);
}

} // verus!
