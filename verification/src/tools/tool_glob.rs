//! Finds files by a pattern.

use vstd::prelude::*;
use crate::text;
use crate::tools::{
    self, fail_fs, reject_args, ErrorView, FsError, FsErrorKind, Param, ParamType, ToolDef,
    ToolError,
};

verus! {

/// What the model reads about the tool.
pub const DESCRIPTION: &'static str = "Find files matching a glob pattern. Returns a sorted list of relative file paths, one per line. Supports `**` for recursive directory matching.\n\nWhen to use: finding files by name pattern (e.g. all .rs files), discovering project structure before reading, checking if a file exists without knowing its exact path.\n\nWhen NOT to use: searching file contents (use grep), listing a single directory (use ls — more readable output for one directory), reading a file at a known path (use read directly).\n\nPattern examples:\n- `**/*.rs` — all Rust files recursively\n- `src/**/*.rs` — Rust files under src/ only\n- `*.toml` — files in workspace root only (no recursion)\n- `src/tui/*.rs` — files directly in src/tui/, non-recursive\n\nReturns 'No files matched.' when nothing matches. Always use forward slashes; backslashes are not valid glob separators.";

/// The arguments of the tool.
#[derive(Clone, Debug)]
pub struct GlobArgs {
    pub pattern: String,
}

/// The tool.
#[derive(Clone, Copy, Debug, PartialEq, Eq, Structural)]
pub struct GlobTool;

/// The files that were found, one per line.
pub open spec fn listing(files: Seq<Seq<char>>) -> Seq<char> {
    if files.len() == 0 {
        "No files matched."@
    } else {
        text::joined(files, "\n"@)
    }
}

/// What the tool answers: the files, or why they could not be found.
pub open spec fn answer(
    args: Result<GlobArgs, String>,
    outcome: Result<Vec<String>, FsError>,
) -> Result<Seq<char>, ErrorView> {
    match args {
        Ok(_) => match outcome {
            Ok(files) => Ok(listing(text::texts(files@))),
            Err(e) => Err(tools::fs_failure(e.kind == FsErrorKind::GlobPattern, e.message@)),
        },
        Err(e) => Err(tools::undecoded(e@)),
    }
}

impl GlobTool {
    /// The tool.
    pub fn new() -> (r: GlobTool)
        ensures
            r == GlobTool,
    {
        GlobTool
    }

    /// The name of the tool.
    pub fn name(&self) -> (r: &'static str)
        ensures
            r@ == "glob"@,
    {
        "glob"
    }

    /// What the model reads about the tool.
    pub fn description(&self) -> (r: &'static str)
        ensures
            r@ == DESCRIPTION@,
    {
        DESCRIPTION
    }

    /// What the tool is to the model.
    pub fn to_def(&self) -> (r: ToolDef)
        ensures
            r.name@ == "glob"@,
            r.description@ == DESCRIPTION@,
            r.parameters@.len() == 1,
            r.parameters@[0].name@ == "pattern"@,
            r.parameters@[0].kind == ParamType::Text,
            r.parameters@[0].required,
            r.parameters@[0].description@
                == "Glob pattern relative to workspace root. Use ** for recursive matching, * for any name segment, ? for single character. Examples: '**/*.rs', 'src/**/*.rs', '*.toml'. Always use forward slashes; backslashes are not valid."@,
    {
        let mut parameters: Vec<Param> = Vec::new();
        parameters.push(
            Param {
                name: "pattern",
                kind: ParamType::Text,
                required: true,
                description: "Glob pattern relative to workspace root. Use ** for recursive matching, * for any name segment, ? for single character. Examples: '**/*.rs', 'src/**/*.rs', '*.toml'. Always use forward slashes; backslashes are not valid.",
            },
        );
        ToolDef { name: "glob", description: DESCRIPTION, parameters }
    }

    /// Reports on a call.
    pub fn execute_stream(
        &self,
        args: Result<GlobArgs, String>,
        outcome: Result<Vec<String>, FsError>,
    ) -> (r: Result<String, ToolError>)
        ensures
            tools::answer_view(r) == answer(args, outcome),
    {
        match args {
            Ok(_) => match outcome {
                Ok(files) => {
                    assert(text::texts(files@).len() == files@.len());
                    if files.len() == 0 {
                        Ok("No files matched.".to_owned())
                    } else {
                        Ok(text::join(&files, "\n"))
                    }
                },
                Err(e) => Err(fail_fs(e.kind == FsErrorKind::GlobPattern, &e)),
            },
            Err(e) => Err(reject_args(e.as_str())),
        }
    }
}

} // verus!
