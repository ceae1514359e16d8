//! What is shown of a `!` command that ran.

use vstd::prelude::*;
use crate::text;

verus! {

/// What `String::from_utf8_lossy` makes of bytes.
pub uninterp spec fn lossy_text(bytes: Seq<u8>) -> Seq<char>;

/// `String::from_utf8_lossy`: the text of `bytes`. Valid UTF-8 is decoded as
/// it is; what stands for invalid bytes is left to the name.
#[verifier::external_body]
pub(crate) fn decode_lossy(bytes: &Vec<u8>) -> (r: String)
    ensures
        r@ == lossy_text(bytes@),
        vstd::utf8::valid_utf8(bytes@) ==> r@ == vstd::utf8::decode_utf8(bytes@),
{
    String::from_utf8_lossy(bytes).into_owned()
}

/// How a command ended.
#[derive(Clone, Debug)]
pub enum ShellOutcome {
    /// It could not be started.
    NotSpawned(String),
    /// It could not be waited for.
    NotAwaited(String),
    /// It ended, with a code unless a signal ended it.
    Finished { stdout: Vec<u8>, stderr: Vec<u8>, exit_code: Option<i32> },
}

/// The two outputs below each other, without white space at their ends.
pub open spec fn merged(stdout: Seq<char>, stderr: Seq<char>) -> Seq<char> {
    let out = text::trimmed_end(stdout);
    let err = text::trimmed_end(stderr);
    if out.len() == 0 {
        err
    } else if err.len() == 0 {
        out
    } else {
        out + seq!['\n'] + err
    }
}

/// What is shown of a command that ended: its output, with the exit code
/// where it is not zero, or a note that there was none.
pub open spec fn command_report(stdout: Seq<char>, stderr: Seq<char>, exit_code: Option<i32>) -> Seq<
    char,
> {
    let m = merged(stdout, stderr);
    match exit_code {
        Some(code) => if m.len() == 0 {
            if code == 0 {
                "(command completed with no output)"@
            } else {
                "(exit code: "@ + text::signed_decimal(code as int) + ", no output)"@
            }
        } else if code == 0 {
            m
        } else {
            m + "\n\n[exit code: "@ + text::signed_decimal(code as int) + "]"@
        },
        None => if m.len() == 0 {
            "(process terminated by signal, no output)"@
        } else {
            m
        },
    }
}

/// What is shown of a command.
pub open spec fn outcome_text(outcome: ShellOutcome) -> Seq<char> {
    match outcome {
        ShellOutcome::NotSpawned(e) => "Failed to spawn command: "@ + e@,
        ShellOutcome::NotAwaited(e) => "Failed to wait on command: "@ + e@,
        ShellOutcome::Finished { stdout, stderr, exit_code } => command_report(
            lossy_text(stdout@),
            lossy_text(stderr@),
            exit_code,
        ),
    }
}

fn merge(stdout: &str, stderr: &str) -> (r: String)
    ensures
        r@ == merged(stdout@, stderr@),
{
    let out = text::trim_end(stdout);
    let err = text::trim_end(stderr);
    if out.as_str().is_empty() {
        err
    } else if err.as_str().is_empty() {
        out
    } else {
        proof {
            reveal_strlit("\n");
        }
        assert("\n"@ =~= seq!['\n']);
        text::cat3(out.as_str(), "\n", err.as_str())
    }
}

/// What is shown of a command that ended.
pub fn report_command(stdout: &str, stderr: &str, exit_code: Option<i32>) -> (r: String)
    ensures
        r@ == command_report(stdout@, stderr@, exit_code),
{
    let m = merge(stdout, stderr);
    let silent = m.as_str().is_empty();
    match exit_code {
        Some(code) => {
            if silent {
                if code == 0 {
                    "(command completed with no output)".to_owned()
                } else {
                    text::cat3(
                        "(exit code: ",
                        text::signed_decimal_of(code).as_str(),
                        ", no output)",
                    )
                }
            } else if code == 0 {
                m
            } else {
                text::cat4(
                    m.as_str(),
                    "\n\n[exit code: ",
                    text::signed_decimal_of(code).as_str(),
                    "]",
                )
            }
        },
        None => {
            if silent {
                "(process terminated by signal, no output)".to_owned()
            } else {
                m
            }
        },
    }
}

/// What is shown of a command.
pub fn report_outcome(outcome: &ShellOutcome) -> (r: String)
    ensures
        r@ == outcome_text(*outcome),
{
    match outcome {
        ShellOutcome::NotSpawned(e) => text::cat2("Failed to spawn command: ", e.as_str()),
        ShellOutcome::NotAwaited(e) => text::cat2("Failed to wait on command: ", e.as_str()),
        ShellOutcome::Finished { stdout, stderr, exit_code } => {
            let out = decode_lossy(stdout);
            let err = decode_lossy(stderr);
            report_command(out.as_str(), err.as_str(), *exit_code)
        },
    }
}

/// A command always leaves something to show.
pub proof fn law_report_is_never_empty(
    stdout: Seq<char>,
    stderr: Seq<char>,
    exit_code: Option<i32>,
)
    ensures
        command_report(stdout, stderr, exit_code).len() > 0,
{
    reveal_strlit("(command completed with no output)");
    reveal_strlit("(exit code: ");
    reveal_strlit("(process terminated by signal, no output)");
}

} // verus!
