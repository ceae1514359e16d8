//! Writes a file.

use vstd::prelude::*;
use crate::text;
use crate::tools::{
    self, content_preview, fail_fs, reject_args, report, FsError, FsErrorKind, Param, ParamType,
    Progress, ProgressView, ToolDef, ToolError,
};

verus! {

/// What the model reads about the tool.
pub const DESCRIPTION: &'static str = "Write content to a file in the workspace. Creates the file if it does not exist; silently overwrites if it does. Parent directories are created automatically.\n\nIMPORTANT: Read the file first before overwriting, so you understand the current state and don't accidentally destroy work.\n\nWhen to use: creating a new file, replacing an entire file's contents, writing a file that does not yet exist.\n\nWhen NOT to use: modifying part of a file (use edit), appending (use shell with >>), checking if a file exists (use ls or glob).\n\nReturn format: 'Wrote {N} bytes to {file_path}'.";

/// The arguments of the tool.
#[derive(Clone, Debug)]
pub struct WriteArgs {
    pub file_path: String,
    pub content: String,
}

/// The tool.
#[derive(Clone, Copy, Debug, PartialEq, Eq, Structural)]
pub struct WriteTool;

/// Whether the arguments are at fault where a write failed.
pub open spec fn blames_args(kind: FsErrorKind) -> bool {
    kind == FsErrorKind::NotAFile || kind == FsErrorKind::WorkspaceEscape
}

/// How many bytes went where.
pub open spec fn amount(args: WriteArgs) -> Seq<char> {
    text::decimal(text::byte_len(args.content@)) + " bytes to "@ + args.file_path@
}

/// What the tool reports.
pub open spec fn reports(args: WriteArgs) -> Seq<ProgressView> {
    tools::three_reports(
        "Writing "@ + amount(args) + "..."@,
        tools::preview_of(args.content@, "Content"@),
        "Wrote "@ + amount(args),
    )
}

/// How many bytes went where.
pub fn amount_of(args: &WriteArgs) -> (r: String)
    ensures
        r@ == amount(*args),
{
    let n: usize = text::byte_len_of(args.content.as_str());
    text::cat3(text::decimal_of(n as u64).as_str(), " bytes to ", args.file_path.as_str())
}

/// The error of the tool for a write that failed.
pub fn map_fs_err(e: &FsError) -> (r: ToolError)
    ensures
        r@ == tools::fs_failure(blames_args(e.kind), e.message@),
{
    let at_fault = e.kind == FsErrorKind::NotAFile || e.kind == FsErrorKind::WorkspaceEscape;
    fail_fs(at_fault, e)
}

impl WriteTool {
    /// The tool.
    pub fn new() -> (r: WriteTool)
        ensures
            r == WriteTool,
    {
        WriteTool
    }

    /// The name of the tool.
    pub fn name(&self) -> (r: &'static str)
        ensures
            r@ == "write"@,
    {
        "write"
    }

    /// What the model reads about the tool.
    pub fn description(&self) -> (r: &'static str)
        ensures
            r@ == DESCRIPTION@,
    {
        DESCRIPTION
    }

    /// What the tool is to the model.
    pub fn to_def(&self) -> (r: ToolDef)
        ensures
            r.name@ == "write"@,
            r.description@ == DESCRIPTION@,
            r.parameters@.len() == 2,
            r.parameters@[0].name@ == "file_path"@,
            r.parameters@[0].kind == ParamType::Text,
            r.parameters@[0].required,
            r.parameters@[0].description@
                == "Path to write to, relative to workspace root. Parent directories are created automatically. Always use forward slashes."@,
            r.parameters@[1].name@ == "content"@,
            r.parameters@[1].kind == ParamType::Text,
            r.parameters@[1].required,
            r.parameters@[1].description@
                == "The full content to write. Multi-line text is supported via \\n newlines. CAUTION: existing content at this path is silently overwritten — read the file first."@,
    {
        let mut parameters: Vec<Param> = Vec::new();
        parameters.push(
            Param {
                name: "file_path",
                kind: ParamType::Text,
                required: true,
                description: "Path to write to, relative to workspace root. Parent directories are created automatically. Always use forward slashes.",
            },
        );
        parameters.push(
            Param {
                name: "content",
                kind: ParamType::Text,
                required: true,
                description: "The full content to write. Multi-line text is supported via \\n newlines. CAUTION: existing content at this path is silently overwritten — read the file first.",
            },
        );
        ToolDef { name: "write", description: DESCRIPTION, parameters }
    }

    /// Reports on a write that succeeded, or on why it failed.
    pub fn finish(&self, args: &WriteArgs, outcome: Result<(), FsError>) -> (r: Result<
        Vec<Progress>,
        ToolError,
    >)
        ensures
            tools::reports_view(r) == match outcome {
                Ok(_) => Ok(reports(*args)),
                Err(e) => Err(tools::fs_failure(blames_args(e.kind), e.message@)),
            },
    {
        match outcome {
            Ok(_) => {
                let amount = amount_of(args);
                let preview = content_preview(args.content.as_str(), "Content");
                let start = text::cat3("Writing ", amount.as_str(), "...");
                let end = text::cat2("Wrote ", amount.as_str());
                Ok(report(start, preview, end))
            },
            Err(e) => Err(map_fs_err(&e)),
        }
    }

    /// Reports on a call: on its arguments where they could not be decoded,
    /// else on the write.
    pub fn execute_stream(
        &self,
        args: Result<WriteArgs, String>,
        outcome: Result<(), FsError>,
    ) -> (r: Result<Vec<Progress>, ToolError>)
        ensures
            tools::reports_view(r) == match args {
                Ok(a) => match outcome {
                    Ok(_) => Ok(reports(a)),
                    Err(e) => Err(tools::fs_failure(blames_args(e.kind), e.message@)),
                },
                Err(e) => Err(tools::undecoded(e@)),
            },
    {
        match args {
            Ok(a) => self.finish(&a, outcome),
            Err(e) => Err(reject_args(e.as_str())),
        }
    }
}

} // verus!
