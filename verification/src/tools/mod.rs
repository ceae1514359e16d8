//! The tools that the model can call.

use vstd::prelude::*;
use crate::text;

pub mod answer_laws;
pub mod ask_user_question;
pub mod calculator;
pub mod calculator_grammar;
pub mod calculator_value;
pub mod echo;
pub mod edit;
pub mod enter_plan_mode;
pub mod exit_plan_mode;
pub mod skill_tool;
pub mod todo;
pub mod tool_edit;
pub mod tool_glob;
pub mod tool_grep;
pub mod tool_ls;
pub mod tool_shell;
pub mod tool_write;
pub mod write;

verus! {

// ── Errors ──────────────────────────────────────────────────────────────

/// Why a tool call failed.
#[derive(Clone, Debug)]
pub enum ToolError {
    /// The arguments do not fit the tool.
    InvalidArgs(String),
    /// The tool could not do its work.
    Execution(String),
}

/// What a tool error holds.
pub enum ErrorView {
    InvalidArgs(Seq<char>),
    Execution(Seq<char>),
}

impl View for ToolError {
    type V = ErrorView;

    open spec fn view(&self) -> ErrorView {
        match self {
            ToolError::InvalidArgs(s) => ErrorView::InvalidArgs(s@),
            ToolError::Execution(s) => ErrorView::Execution(s@),
        }
    }
}

/// What the outcome of a tool that answers with a text holds.
pub open spec fn answer_view(r: Result<String, ToolError>) -> Result<Seq<char>, ErrorView> {
    match r {
        Ok(s) => Ok(s@),
        Err(e) => Err(e@),
    }
}

/// The error for arguments that could not be decoded.
pub open spec fn undecoded(message: Seq<char>) -> ErrorView {
    ErrorView::InvalidArgs("invalid args: "@ + message)
}

/// The error for arguments that could not be decoded.
pub fn reject_args(message: &str) -> (r: ToolError)
    ensures
        r@ == undecoded(message@),
{
    ToolError::InvalidArgs(text::cat2("invalid args: ", message))
}

/// What kind of trouble a file operation met.
#[derive(Clone, Copy, Debug, PartialEq, Eq, Structural)]
pub enum FsErrorKind {
    NotAFile,
    NotADirectory,
    WorkspaceEscape,
    NoMatch,
    AmbiguousMatch,
    GlobPattern,
    Regex,
    Other,
}

/// A file operation that failed, with a message for the model.
#[derive(Clone, Debug)]
pub struct FsError {
    pub kind: FsErrorKind,
    pub message: String,
}

/// The error of a tool for a file operation that failed: the arguments are
/// at fault, or the work.
pub open spec fn fs_failure(args_at_fault: bool, message: Seq<char>) -> ErrorView {
    if args_at_fault {
        ErrorView::InvalidArgs(message)
    } else {
        ErrorView::Execution(message)
    }
}

/// The error of a tool for a file operation that failed.
pub fn fail_fs(args_at_fault: bool, e: &FsError) -> (r: ToolError)
    ensures
        r@ == fs_failure(args_at_fault, e.message@),
{
    if args_at_fault {
        ToolError::InvalidArgs(e.message.clone())
    } else {
        ToolError::Execution(e.message.clone())
    }
}

// ── Progress ────────────────────────────────────────────────────────────

/// What a tool reports while it works.
#[derive(Clone, Debug)]
pub enum Progress {
    InProgress(String),
    Done(String),
}

/// What a report holds.
pub enum ProgressView {
    InProgress(Seq<char>),
    Done(Seq<char>),
}

impl View for Progress {
    type V = ProgressView;

    open spec fn view(&self) -> ProgressView {
        match self {
            Progress::InProgress(s) => ProgressView::InProgress(s@),
            Progress::Done(s) => ProgressView::Done(s@),
        }
    }
}

/// What each report of a tool holds.
pub open spec fn progress_view(v: Seq<Progress>) -> Seq<ProgressView> {
    v.map_values(|p: Progress| p@)
}

/// What the outcome of a tool that reports progress holds.
pub open spec fn reports_view(r: Result<Vec<Progress>, ToolError>) -> Result<
    Seq<ProgressView>,
    ErrorView,
> {
    match r {
        Ok(v) => Ok(progress_view(v@)),
        Err(e) => Err(e@),
    }
}

/// The reports of a tool that changes a file: what it starts, a preview
/// where there is one, and what it did.
pub open spec fn three_reports(start: Seq<char>, preview: Seq<char>, end: Seq<char>) -> Seq<
    ProgressView,
> {
    if preview.len() == 0 {
        seq![ProgressView::InProgress(start), ProgressView::Done(end)]
    } else {
        seq![
            ProgressView::InProgress(start),
            ProgressView::InProgress(preview),
            ProgressView::Done(end),
        ]
    }
}

/// The reports of a tool that changes a file.
pub fn report(start: String, preview: String, end: String) -> (r: Vec<Progress>)
    ensures
        progress_view(r@) == three_reports(start@, preview@, end@),
{
    let mut v: Vec<Progress> = Vec::new();
    let ghost want = three_reports(start@, preview@, end@);
    let silent = preview.as_str().is_empty();
    v.push(Progress::InProgress(start));
    if !silent {
        v.push(Progress::InProgress(preview));
    }
    v.push(Progress::Done(end));
    assert(progress_view(v@) =~= want);
    v
}

/// How many characters of a line a preview shows.
pub const PREVIEW_CHARS: usize = 80;

/// The first line that is not empty, or an empty one.
pub open spec fn first_line(lines: Seq<Seq<char>>) -> Seq<char>
    decreases lines.len(),
{
    if lines.len() == 0 {
        Seq::empty()
    } else if lines[0].len() > 0 {
        lines[0]
    } else {
        first_line(lines.skip(1))
    }
}

/// A line, cut to the length of a preview with an ellipsis of three dots.
pub open spec fn cut_line(line: Seq<char>) -> Seq<char> {
    if line.len() > PREVIEW_CHARS {
        line.take(PREVIEW_CHARS - 3) + "..."@
    } else {
        line
    }
}

/// A preview of a content on one line: its first line that is not empty, and
/// how many more there are. An empty content has none.
pub open spec fn preview_of(content: Seq<char>, prefix: Seq<char>) -> Seq<char> {
    if content.len() == 0 {
        Seq::empty()
    } else {
        let lines = text::lines_of(content);
        let line = prefix + ": "@ + cut_line(first_line(lines));
        if lines.len() > 1 {
            line + " (+"@ + text::decimal((lines.len() - 1) as nat) + " more lines)"@
        } else {
            line
        }
    }
}

fn first_line_of(lines: &Vec<String>) -> (r: String)
    ensures
        r@ == first_line(text::texts(lines@)),
{
    let ghost all = text::texts(lines@);
    let mut i: usize = 0;
    assert(all.skip(0) =~= all);
    while i < lines.len()
        invariant
            i <= lines@.len(),
            all == text::texts(lines@),
            first_line(all.skip(i as int)) == first_line(all),
        decreases lines@.len() - i,
    {
        assert(all[i as int] == lines@[i as int]@);
        assert(all.skip(i as int)[0] == all[i as int]);
        assert(all.skip(i as int).skip(1) =~= all.skip(i + 1));
        if !lines[i].as_str().is_empty() {
            return lines[i].clone();
        }
        i = i + 1;
    }
    assert(all.skip(i as int).len() == 0);
    String::new()
}

fn cut_line_of(line: &str) -> (r: String)
    ensures
        r@ == cut_line(line@),
{
    let cs = text::chars_of(line);
    if cs.len() > PREVIEW_CHARS {
        assert(cs@.subrange(0, PREVIEW_CHARS - 3) =~= line@.take(PREVIEW_CHARS - 3));
        text::cat2(text::string_of_range(&cs, 0, PREVIEW_CHARS - 3).as_str(), "...")
    } else {
        line.to_owned()
    }
}

/// A preview of a content on one line, for the display of progress.
pub fn content_preview(content: &str, prefix: &str) -> (r: String)
    ensures
        r@ == preview_of(content@, prefix@),
{
    if content.is_empty() {
        return String::new();
    }
    let lines = text::lines(content);
    let first = cut_line_of(first_line_of(&lines).as_str());
    assert(text::texts(lines@).len() == lines@.len());
    if lines.len() > 1 {
        let more = text::decimal_of((lines.len() - 1) as u64);
        text::cat6(prefix, ": ", first.as_str(), " (+", more.as_str(), " more lines)")
    } else {
        text::cat3(prefix, ": ", first.as_str())
    }
}

/// A preview shows a short line whole, and never more than its limit.
pub proof fn law_preview_is_bounded(line: Seq<char>)
    ensures
        cut_line(line).len() <= PREVIEW_CHARS,
        line.len() <= PREVIEW_CHARS ==> cut_line(line) == line,
{
    reveal_strlit("...");
}

// ── Parameters ──────────────────────────────────────────────────────────

/// The type of a parameter.
#[derive(Clone, Copy, Debug, PartialEq, Eq, Structural)]
pub enum ParamType {
    Text,
    Integer,
    List,
}

/// A parameter of a tool.
#[derive(Clone, Debug)]
pub struct Param {
    pub name: &'static str,
    pub kind: ParamType,
    pub required: bool,
    pub description: &'static str,
}

impl ParamType {
    /// The name of the type in a schema.
    pub fn label(self) -> (r: &'static str)
        ensures
            r@ == match self {
                ParamType::Text => "string"@,
                ParamType::Integer => "integer"@,
                ParamType::List => "array"@,
            },
    {
        match self {
            ParamType::Text => "string",
            ParamType::Integer => "integer",
            ParamType::List => "array",
        }
    }
}

/// What a tool is to the model: its name, what it does, and what it takes.
/// The arguments are an object, and hold nothing else.
#[derive(Clone, Debug)]
pub struct ToolDef {
    pub name: &'static str,
    pub description: &'static str,
    pub parameters: Vec<Param>,
}

} // verus!
