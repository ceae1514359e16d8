//! Replaces a fragment of a file that occurs exactly once.

use vstd::prelude::*;
use crate::text;
use crate::tools::{
    self, content_preview, fail_fs, reject_args, report, ErrorView, FsError, FsErrorKind, Param,
    ParamType, Progress, ProgressView, ToolDef, ToolError,
};

verus! {

/// What the model reads about the tool.
pub const DESCRIPTION: &'static str = "Replace an exact text fragment in a file. old_content is matched against the file's CURRENT content and must appear EXACTLY ONCE. The match is literal (no regex, no globs); line-ending differences (\\r\\n vs \\n) are ignored.\n\nIMPORTANT — READ FIRST: Read the file before editing. old_content must come from that read, not from memory or an earlier version of the file. If the edit fails (zero matches, or multiple matches), the file changed or your content is stale: re-read the file and retry with fresh content. The tool NEVER edits on a failed match — no corruption, only a retry.\n\nAMBIGUOUS MATCHES: if old_content appears more than once, extend it with neighboring lines to make the match unique.\n\nDeletion: pass empty new_content to delete the matched fragment.\nInsertion: match a small anchor fragment and include the new lines in new_content.\n\nWhen to use: modifying part of an existing file, deleting a fragment, inserting lines.\n\nWhen NOT to use: creating a new file or rewriting it wholesale (use write — simpler and less error-prone), bulk mechanical renames (use write of the whole file).\n\nReturn format: 'Edited {file_path}: replaced match at lines {start}-{end} ({old} → {new} lines)'.";

/// The arguments of the tool.
#[derive(Clone, Debug)]
pub struct EditArgs {
    pub file_path: String,
    /// What is replaced.
    pub old_content: String,
    /// What replaces it.
    pub new_content: String,
}

/// The lines of a file that a fragment stood in, counted from one.
#[derive(Clone, Copy, Debug, PartialEq, Eq, Structural)]
pub struct EditSpan {
    pub start_line: usize,
    pub end_line: usize,
}

/// The tool.
#[derive(Clone, Copy, Debug, PartialEq, Eq, Structural)]
pub struct EditTool;

/// The lines that were replaced, in words.
pub open spec fn span_label(span: EditSpan) -> Seq<char> {
    if span.start_line == span.end_line {
        "line "@ + text::decimal(span.start_line as nat)
    } else {
        "lines "@ + text::decimal(span.start_line as nat) + "-"@ + text::decimal(
            span.end_line as nat,
        )
    }
}

/// Whether the arguments are at fault where an edit failed.
pub open spec fn blames_args(kind: FsErrorKind) -> bool {
    kind == FsErrorKind::NotAFile || kind == FsErrorKind::WorkspaceEscape || kind
        == FsErrorKind::NoMatch || kind == FsErrorKind::AmbiguousMatch
}

/// What the tool reports.
pub open spec fn reports(args: EditArgs, span: EditSpan) -> Seq<ProgressView> {
    tools::three_reports(
        "Editing "@ + args.file_path@ + ": "@ + span_label(span) + "..."@,
        tools::preview_of(args.new_content@, "Replace with"@),
        "Edited "@ + args.file_path@ + ": replaced match at "@ + span_label(span) + " ("@
            + text::decimal(text::lines_of(args.old_content@).len()) + " → "@ + text::decimal(
            text::lines_of(args.new_content@).len(),
        ) + " lines)"@,
    )
}

fn span_label_of(span: EditSpan) -> (r: String)
    ensures
        r@ == span_label(span),
{
    let start = text::decimal_of(span.start_line as u64);
    if span.start_line == span.end_line {
        text::cat2("line ", start.as_str())
    } else {
        text::cat4(
            "lines ",
            start.as_str(),
            "-",
            text::decimal_of(span.end_line as u64).as_str(),
        )
    }
}

fn line_count(s: &str) -> (r: String)
    ensures
        r@ == text::decimal(text::lines_of(s@).len()),
{
    let lines = text::lines(s);
    assert(text::texts(lines@).len() == lines@.len());
    text::decimal_of(lines.len() as u64)
}

impl EditTool {
    /// The tool.
    pub fn new() -> (r: EditTool)
        ensures
            r == EditTool,
    {
        EditTool
    }

    /// The name of the tool.
    pub fn name(&self) -> (r: &'static str)
        ensures
            r@ == "edit"@,
    {
        "edit"
    }

    /// What the model reads about the tool.
    pub fn description(&self) -> (r: &'static str)
        ensures
            r@ == DESCRIPTION@,
    {
        DESCRIPTION
    }

    /// What the tool is to the model.
    pub fn to_def(&self) -> (r: ToolDef)
        ensures
            r.name@ == "edit"@,
            r.description@ == DESCRIPTION@,
            r.parameters@.len() == 3,
            r.parameters@[0].name@ == "file_path"@,
            r.parameters@[0].kind == ParamType::Text,
            r.parameters@[0].required,
            r.parameters@[0].description@
                == "Path to the file to edit, relative to workspace root. Must be an existing file. Always use forward slashes."@,
            r.parameters@[1].name@ == "old_content"@,
            r.parameters@[1].kind == ParamType::Text,
            r.parameters@[1].required,
            r.parameters@[1].description@
                == "The exact text to match in the file's CURRENT content. Must appear exactly once. Literal match — no regex. Line-ending differences are ignored. If the match fails (zero or multiple matches), the file changed or your content is stale: re-read the file and retry with fresh content. Include neighboring lines when the fragment is not unique."@,
            r.parameters@[2].name@ == "new_content"@,
            r.parameters@[2].kind == ParamType::Text,
            r.parameters@[2].required,
            r.parameters@[2].description@
                == "Replacement text to insert in place of the matched fragment. Pass empty string to delete the matched fragment. Use \\n for multiple lines."@,
    {
        let mut parameters: Vec<Param> = Vec::new();
        parameters.push(
            Param {
                name: "file_path",
                kind: ParamType::Text,
                required: true,
                description: "Path to the file to edit, relative to workspace root. Must be an existing file. Always use forward slashes.",
            },
        );
        parameters.push(
            Param {
                name: "old_content",
                kind: ParamType::Text,
                required: true,
                description: "The exact text to match in the file's CURRENT content. Must appear exactly once. Literal match — no regex. Line-ending differences are ignored. If the match fails (zero or multiple matches), the file changed or your content is stale: re-read the file and retry with fresh content. Include neighboring lines when the fragment is not unique.",
            },
        );
        parameters.push(
            Param {
                name: "new_content",
                kind: ParamType::Text,
                required: true,
                description: "Replacement text to insert in place of the matched fragment. Pass empty string to delete the matched fragment. Use \\n for multiple lines.",
            },
        );
        ToolDef { name: "edit", description: DESCRIPTION, parameters }
    }

    /// Reports on an edit: which lines the fragment stood in, or why there
    /// was none.
    pub fn finish(&self, args: &EditArgs, outcome: Result<EditSpan, FsError>) -> (r: Result<
        Vec<Progress>,
        ToolError,
    >)
        ensures
            tools::reports_view(r) == match outcome {
                Ok(span) => Ok(reports(*args, span)),
                Err(e) => Err(tools::fs_failure(blames_args(e.kind), e.message@)),
            },
    {
        match outcome {
            Ok(span) => {
                let label = span_label_of(span);
                let preview = content_preview(args.new_content.as_str(), "Replace with");
                let start = text::cat5(
                    "Editing ",
                    args.file_path.as_str(),
                    ": ",
                    label.as_str(),
                    "...",
                );
                let head = text::cat5(
                    "Edited ",
                    args.file_path.as_str(),
                    ": replaced match at ",
                    label.as_str(),
                    " (",
                );
                let end = text::cat5(
                    head.as_str(),
                    line_count(args.old_content.as_str()).as_str(),
                    " → ",
                    line_count(args.new_content.as_str()).as_str(),
                    " lines)",
                );
                Ok(report(start, preview, end))
            },
            Err(e) => {
                let at_fault = e.kind == FsErrorKind::NotAFile || e.kind
                    == FsErrorKind::WorkspaceEscape || e.kind == FsErrorKind::NoMatch || e.kind
                    == FsErrorKind::AmbiguousMatch;
                Err(fail_fs(at_fault, &e))
            },
        }
    }

    /// Reports on a call: on its arguments where they could not be decoded,
    /// else on the edit.
    pub fn execute_stream(
        &self,
        args: Result<EditArgs, String>,
        outcome: Result<EditSpan, FsError>,
    ) -> (r: Result<Vec<Progress>, ToolError>)
        ensures
            tools::reports_view(r) == match args {
                Ok(a) => match outcome {
                    Ok(span) => Ok(reports(a, span)),
                    Err(e) => Err(tools::fs_failure(blames_args(e.kind), e.message@)),
                },
                Err(e) => Err(tools::undecoded(e@)),
            },
    {
        match args {
            Ok(a) => self.finish(&a, outcome),
            Err(e) => Err(reject_args(e.as_str())),
        }
    }
}

/// Where a fragment matches nowhere, or in several places, the arguments are
/// at fault: the model is to read the file again.
pub proof fn law_failed_match_blames_the_arguments(kind: FsErrorKind, message: Seq<char>)
    requires
        kind == FsErrorKind::NoMatch || kind == FsErrorKind::AmbiguousMatch,
    ensures
        tools::fs_failure(blames_args(kind), message) == ErrorView::InvalidArgs(message),
{
}

} // verus!
