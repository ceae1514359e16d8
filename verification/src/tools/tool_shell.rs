//! Runs a shell command.

use vstd::prelude::*;
use crate::text;
use crate::tools::{
    self, reject_args, ErrorView, Param, ParamType, ToolDef, ToolError,
};
use crate::tui::shell_exec::{self, decode_lossy, ShellOutcome};

verus! {

/// What the model reads about the tool.
pub const DESCRIPTION: &'static str = "Execute a shell command in the workspace directory. The command runs inside the workspace root as the working directory.\n\nOutput is capped at 100 KB to avoid flooding context. If the command exceeds the timeout it is killed and partial output is returned. Exit code is appended to the output when non-zero.\n\nWhen to use: running build commands (`cargo build`, `npm install`, `make`), running tests (`cargo test`, `pytest`), version control (`git status`, `git diff`, `git log`), any CLI tool without a dedicated equivalent.\n\nIMPORTANT — use dedicated tools instead of shell when possible:\n- Reading files → use read (safer, cat -n format with line numbers)\n- Listing directories → use ls or glob (structured output)\n- Searching content → use grep (structured output with line numbers)\n- Editing files → use edit or write (sandbox-safe, undoable)\nDo NOT use shell to run `cat`, `ls`, `find`, `grep`, `echo`, or `sed` unless you have verified that the dedicated tool cannot accomplish the task.\n\nTimed out or killed commands return partial output — do not assume success when output is incomplete.";

/// How many bytes are returned to the model, at most.
pub const MAX_OUTPUT_BYTES: usize = 100_000;

/// How many of them may come from the error output.
pub const MAX_STDERR_BYTES: usize = 20_000;

/// The arguments of the tool.
#[derive(Clone, Debug)]
pub struct ShellArgs {
    pub command: String,
    pub timeout_secs: Option<u64>,
}

/// What is to be run.
#[derive(Clone, Debug)]
pub struct ShellRequest {
    pub command: String,
    /// After how many seconds the command is killed.
    pub timeout_secs: u64,
}

/// The tool.
#[derive(Clone, Copy, Debug, PartialEq, Eq, Structural)]
pub struct ShellTool {
    /// The longest time that a command may run, and the time that it gets
    /// where the model asks for none.
    pub default_timeout_secs: u64,
}

/// The time that a command gets: what was asked for, up to the limit, and at
/// least a second.
pub open spec fn timeout(asked: Option<u64>, limit: u64) -> u64 {
    let t = match asked {
        Some(t) => if t < limit {
            t
        } else {
            limit
        },
        None => limit,
    };
    if t < 1 {
        1
    } else {
        t
    }
}

/// A text within `max` bytes, or its start with a note.
pub open spec fn limited(s: Seq<char>, max: nat) -> Seq<char> {
    if text::byte_len(s) <= max {
        s
    } else {
        s.take(text::floor_index(s, max)) + "…\n[output truncated at "@ + text::decimal(max)
            + " bytes]"@
    }
}

/// The outputs, the error output under a heading where there are both.
pub open spec fn merged(stdout: Seq<char>, stderr: Seq<char>) -> Seq<char> {
    let out = text::trimmed_end(stdout);
    let err = text::trimmed_end(stderr);
    let head = if out.len() == 0 {
        Seq::empty()
    } else {
        limited(out, MAX_OUTPUT_BYTES as nat)
    };
    if err.len() == 0 {
        head
    } else {
        let front = if head.len() == 0 {
            head
        } else {
            head + "\n\n[stderr]\n"@
        };
        front + limited(err, stderr_limit(text::byte_len(front)))
    }
}

/// How many bytes of the error output fit behind `used` bytes.
pub open spec fn stderr_limit(used: nat) -> nat {
    let rest = if used < MAX_OUTPUT_BYTES {
        (MAX_OUTPUT_BYTES - used) as nat
    } else {
        0
    };
    if rest < MAX_STDERR_BYTES {
        rest
    } else {
        MAX_STDERR_BYTES as nat
    }
}

/// What stands in place of what was cut from a report.
pub const CUT_NOTICE: &'static str = "…\n[output truncated at 100000 bytes]";

/// A report within `max` bytes: the whole, or its start with a note where
/// there is room for one.
pub open spec fn within(s: Seq<char>, max: nat) -> Seq<char> {
    let note = text::byte_len(CUT_NOTICE@);
    if text::byte_len(s) <= max {
        s
    } else if note <= max {
        s.take(text::floor_index(s, (max - note) as nat)) + CUT_NOTICE@
    } else {
        s.take(text::floor_index(s, max))
    }
}

/// The line on the exit code: none for success, or where a signal ended the
/// command.
pub open spec fn exit_line(exit_code: Option<i32>) -> Seq<char> {
    match exit_code {
        Some(code) => if code == 0 {
            Seq::empty()
        } else {
            "\n\n[exit code: "@ + text::signed_decimal(code as int) + "]"@
        },
        None => Seq::empty(),
    }
}

/// The outputs and the line on the exit code, within the limit: where they
/// are too long together, the outputs are cut, and the line stays.
pub open spec fn bounded_report(outputs: Seq<char>, exit_code: Option<i32>) -> Seq<char> {
    let line = exit_line(exit_code);
    within(outputs, text::missing(text::byte_len(line), MAX_OUTPUT_BYTES as nat)) + line
}

/// What the model is told of a command that ended.
pub open spec fn command_report(stdout: Seq<char>, stderr: Seq<char>, exit_code: Option<i32>) -> Seq<
    char,
> {
    let m = merged(stdout, stderr);
    if m.len() > 0 {
        bounded_report(m, exit_code)
    } else {
        match exit_code {
            Some(code) => if code == 0 {
                "(command completed with no output)"@
            } else {
                "(exit code: "@ + text::signed_decimal(code as int) + ", no output)"@
            },
            None => "(process terminated by signal, no output)"@,
        }
    }
}

/// What the model is answered.
pub open spec fn answer(outcome: ShellOutcome) -> Result<Seq<char>, ErrorView> {
    match outcome {
        ShellOutcome::NotSpawned(e) => Err(
            ErrorView::Execution("Failed to spawn command: "@ + e@),
        ),
        ShellOutcome::NotAwaited(e) => Err(
            ErrorView::Execution("Failed to wait on command: "@ + e@),
        ),
        ShellOutcome::Finished { stdout, stderr, exit_code } => Ok(
            command_report(
                shell_exec::lossy_text(stdout@),
                shell_exec::lossy_text(stderr@),
                exit_code,
            ),
        ),
    }
}

fn limit(s: &str, max: usize) -> (r: String)
    ensures
        r@ == limited(s@, max as nat),
{
    if text::byte_len_of(s) <= max {
        return s.to_owned();
    }
    let cs = text::chars_of(s);
    let k: usize = text::floor_chars(&cs, max);
    assert(cs@.subrange(0, k as int) =~= s@.take(k as int));
    text::cat4(
        text::string_of_range(&cs, 0, k).as_str(),
        "…\n[output truncated at ",
        text::decimal_of(max as u64).as_str(),
        " bytes]",
    )
}

fn limit_stderr(used: usize) -> (r: usize)
    ensures
        r == stderr_limit(used as nat),
{
    let rest: usize = if used < MAX_OUTPUT_BYTES {
        MAX_OUTPUT_BYTES - used
    } else {
        0
    };
    if rest < MAX_STDERR_BYTES {
        rest
    } else {
        MAX_STDERR_BYTES
    }
}

fn merge(stdout: &str, stderr: &str) -> (r: String)
    ensures
        r@ == merged(stdout@, stderr@),
{
    let out = text::trim_end(stdout);
    let err = text::trim_end(stderr);
    let head = if out.as_str().is_empty() {
        String::new()
    } else {
        limit(out.as_str(), MAX_OUTPUT_BYTES)
    };
    if err.as_str().is_empty() {
        return head;
    }
    let front = if head.as_str().is_empty() {
        head
    } else {
        text::cat2(head.as_str(), "\n\n[stderr]\n")
    };
    let used: usize = text::byte_len_of(front.as_str());
    let max: usize = limit_stderr(used);
    text::cat2(front.as_str(), limit(err.as_str(), max).as_str())
}

fn cut(s: &str, max: usize) -> (r: String)
    ensures
        r@ == within(s@, max as nat),
{
    let n: usize = text::byte_len_of(s);
    if n <= max {
        return s.to_owned();
    }
    let note: usize = text::byte_len_of(CUT_NOTICE);
    let cs = text::chars_of(s);
    if note <= max {
        let k: usize = text::floor_chars(&cs, max - note);
        assert(cs@.subrange(0, k as int) =~= s@.take(k as int));
        text::cat2(text::string_of_range(&cs, 0, k).as_str(), CUT_NOTICE)
    } else {
        let k: usize = text::floor_chars(&cs, max);
        assert(cs@.subrange(0, k as int) =~= s@.take(k as int));
        text::string_of_range(&cs, 0, k)
    }
}

fn exit_line_of(exit_code: Option<i32>) -> (r: String)
    ensures
        r@ == exit_line(exit_code),
{
    match exit_code {
        Some(code) => {
            if code == 0 {
                String::new()
            } else {
                text::cat3("\n\n[exit code: ", text::signed_decimal_of(code).as_str(), "]")
            }
        },
        None => String::new(),
    }
}

/// What the model is told of a command that ended.
pub fn report_command(stdout: &str, stderr: &str, exit_code: Option<i32>) -> (r: String)
    ensures
        r@ == command_report(stdout@, stderr@, exit_code),
        text::byte_len(r@) <= MAX_OUTPUT_BYTES,
{
    proof {
        law_report_is_bounded(stdout@, stderr@, exit_code);
    }
    let m = merge(stdout, stderr);
    if !m.as_str().is_empty() {
        let line = exit_line_of(exit_code);
        let taken: usize = text::byte_len_of(line.as_str());
        let room: usize = if taken < MAX_OUTPUT_BYTES {
            MAX_OUTPUT_BYTES - taken
        } else {
            0
        };
        return text::cat2(cut(m.as_str(), room).as_str(), line.as_str());
    }
    match exit_code {
        Some(code) => {
            if code == 0 {
                "(command completed with no output)".to_owned()
            } else {
                text::cat3(
                    "(exit code: ",
                    text::signed_decimal_of(code).as_str(),
                    ", no output)",
                )
            }
        },
        None => "(process terminated by signal, no output)".to_owned(),
    }
}

impl ShellTool {
    /// A tool with a limit on the time of a command.
    pub fn new(default_timeout_secs: u64) -> (r: ShellTool)
        ensures
            r.default_timeout_secs == default_timeout_secs,
    {
        ShellTool { default_timeout_secs }
    }

    /// The name of the tool.
    pub fn name(&self) -> (r: &'static str)
        ensures
            r@ == "shell"@,
    {
        "shell"
    }

    /// What the model reads about the tool.
    pub fn description(&self) -> (r: &'static str)
        ensures
            r@ == DESCRIPTION@,
    {
        DESCRIPTION
    }

    /// What the tool is to the model.
    pub fn to_def(&self) -> (r: ToolDef)
        ensures
            r.name@ == "shell"@,
            r.description@ == DESCRIPTION@,
            r.parameters@.len() == 2,
            r.parameters@[0].name@ == "command"@,
            r.parameters@[0].kind == ParamType::Text,
            r.parameters@[0].required,
            r.parameters@[0].description@
                == "The shell command to execute. Runs with the workspace root as working directory. On Windows: cmd /C. On Unix: sh -c. Examples: 'cargo build', 'git status', 'npm test'. Do NOT use for cat/ls/find/grep/echo — use the dedicated tools instead."@,
            r.parameters@[1].name@ == "timeout_secs"@,
            r.parameters@[1].kind == ParamType::Integer,
            !r.parameters@[1].required,
            r.parameters@[1].description@
                == "Max execution time in seconds (range: 1-120). Default: 60. The process is killed if exceeded; partial output captured so far is returned. Set shorter for quick commands, longer for builds."@,
    {
        let mut parameters: Vec<Param> = Vec::new();
        parameters.push(
            Param {
                name: "command",
                kind: ParamType::Text,
                required: true,
                description: "The shell command to execute. Runs with the workspace root as working directory. On Windows: cmd /C. On Unix: sh -c. Examples: 'cargo build', 'git status', 'npm test'. Do NOT use for cat/ls/find/grep/echo — use the dedicated tools instead.",
            },
        );
        parameters.push(
            Param {
                name: "timeout_secs",
                kind: ParamType::Integer,
                required: false,
                description: "Max execution time in seconds (range: 1-120). Default: 60. The process is killed if exceeded; partial output captured so far is returned. Set shorter for quick commands, longer for builds.",
            },
        );
        ToolDef { name: "shell", description: DESCRIPTION, parameters }
    }

    /// What is to be run, unless there is no command.
    pub fn prepare(&self, args: Result<ShellArgs, String>) -> (r: Result<ShellRequest, ToolError>)
        ensures
            match args {
                Ok(a) => if text::trimmed(a.command@).len() == 0 {
                    r matches Err(e) && e@ == ErrorView::InvalidArgs(
                        "Missing required field: 'command'"@,
                    )
                } else {
                    r matches Ok(q) && q.command@ == a.command@ && q.timeout_secs == timeout(
                        a.timeout_secs,
                        self.default_timeout_secs,
                    )
                },
                Err(e) => r matches Err(f) && f@ == tools::undecoded(e@),
            },
    {
        match args {
            Ok(a) => {
                if text::trim(a.command.as_str()).as_str().is_empty() {
                    return Err(
                        ToolError::InvalidArgs("Missing required field: 'command'".to_owned()),
                    );
                }
                let limit: u64 = self.default_timeout_secs;
                let asked: u64 = match a.timeout_secs {
                    Some(t) => if t < limit {
                        t
                    } else {
                        limit
                    },
                    None => limit,
                };
                let timeout_secs: u64 = if asked < 1 {
                    1
                } else {
                    asked
                };
                Ok(ShellRequest { command: a.command, timeout_secs })
            },
            Err(e) => Err(reject_args(e.as_str())),
        }
    }

    /// Reports on a command that was run.
    pub fn execute(&self, outcome: &ShellOutcome) -> (r: Result<String, ToolError>)
        ensures
            tools::answer_view(r) == answer(*outcome),
            r matches Ok(s) ==> text::byte_len(s@) <= MAX_OUTPUT_BYTES,
    {
        match outcome {
            ShellOutcome::NotSpawned(e) => Err(
                ToolError::Execution(text::cat2("Failed to spawn command: ", e.as_str())),
            ),
            ShellOutcome::NotAwaited(e) => Err(
                ToolError::Execution(text::cat2("Failed to wait on command: ", e.as_str())),
            ),
            ShellOutcome::Finished { stdout, stderr, exit_code } => {
                let out = decode_lossy(stdout);
                let err = decode_lossy(stderr);
                Ok(report_command(out.as_str(), err.as_str(), *exit_code))
            },
        }
    }
}

// ── Laws ────────────────────────────────────────────────────────────────

/// A command gets at least a second, and never more than the limit, unless
/// the limit itself is less than a second.
pub proof fn law_timeouts_are_bounded(asked: Option<u64>, max: u64)
    ensures
        timeout(asked, max) >= 1,
        max >= 1 ==> timeout(asked, max) <= max,
        asked matches Some(t) ==> (1 <= t <= max ==> timeout(asked, max) == t),
{
}

/// The model always gets something to read.
pub proof fn law_report_is_never_empty(
    stdout: Seq<char>,
    stderr: Seq<char>,
    exit_code: Option<i32>,
)
    ensures
        command_report(stdout, stderr, exit_code).len() > 0,
{
    reveal_strlit("(command completed with no output)");
    reveal_strlit("(exit code: ");
    reveal_strlit("(process terminated by signal, no output)");
    reveal_strlit("\n\n[exit code: ");
    reveal_strlit("]");
    reveal_strlit("…\n[output truncated at 100000 bytes]");
    if exit_code is Some {
        lemma_code_is_short(exit_code->0);
    }
    lemma_bytes_of_chars(exit_line(exit_code));
    lemma_bytes_of_chars(CUT_NOTICE@);
}

pub proof fn lemma_bytes_of_chars(s: Seq<char>)
    ensures
        text::byte_len(s) <= 4 * s.len(),
    decreases s.len(),
{
    if s.len() > 0 {
        lemma_bytes_of_chars(s.drop_last());
    }
}

/// The numbers below it have at most `k` digits.
spec fn power_of_ten(k: nat) -> nat
    decreases k,
{
    if k == 0 {
        1
    } else {
        10 * power_of_ten((k - 1) as nat)
    }
}

proof fn lemma_digits(n: nat, k: nat)
    requires
        k > 0,
        n < power_of_ten(k),
    ensures
        text::decimal(n).len() <= k,
    decreases k,
{
    if n >= 10 {
        assert(k > 1) by {
            reveal_with_fuel(power_of_ten, 2);
        }
        lemma_digits(n / 10, (k - 1) as nat);
    }
}

pub proof fn lemma_code_is_short(code: i32)
    ensures
        text::signed_decimal(code as int).len() <= 11,
{
    reveal_with_fuel(power_of_ten, 11);
    if code < 0 {
        lemma_digits((-code) as nat, 10);
    } else {
        lemma_digits(code as nat, 10);
    }
}

proof fn lemma_floor_fits(s: Seq<char>, max: nat)
    ensures
        0 <= text::floor_index(s, max) <= s.len(),
        text::byte_len(s.take(text::floor_index(s, max))) <= max,
    decreases s.len(),
{
    if text::byte_len(s) <= max || s.len() == 0 {
        assert(s.take(s.len() as int) =~= s);
    } else {
        lemma_floor_fits(s.drop_last(), max);
        let k = text::floor_index(s, max);
        assert(s.drop_last().take(k) =~= s.take(k));
    }
}

/// The model never gets more bytes than the limit, however long the outputs
/// are, and whatever the exit code is.
pub proof fn law_report_is_bounded(stdout: Seq<char>, stderr: Seq<char>, exit_code: Option<i32>)
    ensures
        text::byte_len(command_report(stdout, stderr, exit_code)) <= MAX_OUTPUT_BYTES,
{
    reveal_strlit("(command completed with no output)");
    reveal_strlit("(exit code: ");
    reveal_strlit(", no output)");
    reveal_strlit("(process terminated by signal, no output)");
    reveal_strlit("\n\n[exit code: ");
    reveal_strlit("]");
    if exit_code is Some {
        lemma_code_is_short(exit_code->0);
    }
    let m = merged(stdout, stderr);
    if m.len() > 0 {
        let line = exit_line(exit_code);
        lemma_bytes_of_chars(line);
        let max = text::missing(text::byte_len(line), MAX_OUTPUT_BYTES as nat);
        let note = text::byte_len(CUT_NOTICE@);
        lemma_floor_fits(m, max);
        if note <= max {
            lemma_floor_fits(m, (max - note) as nat);
            text::lemma_byte_len_add(
                m.take(text::floor_index(m, (max - note) as nat)),
                CUT_NOTICE@,
            );
        }
        text::lemma_byte_len_add(within(m, max), line);
    } else {
        lemma_bytes_of_chars(command_report(stdout, stderr, exit_code));
    }
}

/// A report that is short enough is not cut: the outputs, and the line on the
/// exit code where there is one.
pub proof fn law_short_reports_are_whole(
    stdout: Seq<char>,
    stderr: Seq<char>,
    exit_code: Option<i32>,
)
    requires
        merged(stdout, stderr).len() > 0,
        text::byte_len(merged(stdout, stderr)) + text::byte_len(exit_line(exit_code))
            <= MAX_OUTPUT_BYTES,
    ensures
        command_report(stdout, stderr, exit_code) == merged(stdout, stderr) + exit_line(exit_code),
{
}

/// The error output takes no more than its share, and no more than what the
/// output left.
pub proof fn law_stderr_is_bounded(used: nat)
    ensures
        stderr_limit(used) <= MAX_STDERR_BYTES,
        used <= MAX_OUTPUT_BYTES ==> used + stderr_limit(used) <= MAX_OUTPUT_BYTES,
{
}

} // verus!
