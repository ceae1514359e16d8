//! Searches the contents of files.

use vstd::prelude::*;
use crate::text;
use crate::tools::{
    self, fail_fs, reject_args, ErrorView, FsError, FsErrorKind, Param, ParamType, ToolDef,
    ToolError,
};

verus! {

/// What the model reads about the tool.
pub const DESCRIPTION: &'static str = "Search file contents using a regular expression. Returns every matching line with its file path and line number: `{path}:{line}: {content}`. Use `path_glob` to limit the search to specific files.\n\nWhen to use: finding where a function, type, or variable is defined or used; searching for error messages or configuration keys; locating all occurrences of a pattern before refactoring.\n\nWhen NOT to use: finding files by name (use glob), reading a file's contents (use read), searching a single known file (read it and scan — grep searches ALL files and may return noise).\n\nPattern examples:\n- `fn main` — literal substring match\n- `pub struct \\w+` — regex for struct definitions\n- `TODO|FIXME` — alternation\n- `(?i)error` — case-insensitive (use (?i) prefix)\n\nReturns 'No matches found.' when nothing matches.";

/// The arguments of the tool.
#[derive(Clone, Debug)]
pub struct GrepArgs {
    pub pattern: String,
    pub path_glob: Option<String>,
}

/// A line that matched.
#[derive(Clone, Debug)]
pub struct GrepMatch {
    pub file_path: String,
    /// Counted from one.
    pub line_number: usize,
    pub line_content: String,
}

/// The tool.
#[derive(Clone, Copy, Debug, PartialEq, Eq, Structural)]
pub struct GrepTool;

/// A line that matched, with where it stands.
pub open spec fn match_line(m: GrepMatch) -> Seq<char> {
    m.file_path@ + ":"@ + text::decimal(m.line_number as nat) + ": "@ + m.line_content@
}

/// The lines that matched.
pub open spec fn listing(found: Seq<GrepMatch>) -> Seq<char> {
    if found.len() == 0 {
        "No matches found."@
    } else {
        text::joined(Seq::new(found.len(), |i: int| match_line(found[i])), "\n"@)
    }
}

/// What the tool answers: the lines, or why there are none.
pub open spec fn answer(
    args: Result<GrepArgs, String>,
    outcome: Result<Vec<GrepMatch>, FsError>,
) -> Result<Seq<char>, ErrorView> {
    match args {
        Ok(_) => match outcome {
            Ok(found) => Ok(listing(found@)),
            Err(e) => Err(tools::fs_failure(e.kind == FsErrorKind::Regex, e.message@)),
        },
        Err(e) => Err(tools::undecoded(e@)),
    }
}

fn list(found: &Vec<GrepMatch>) -> (r: String)
    ensures
        r@ == listing(found@),
{
    if found.len() == 0 {
        return "No matches found.".to_owned();
    }
    let ghost want = Seq::new(found@.len(), |i: int| match_line(found@[i]));
    let mut lines: Vec<String> = Vec::new();
    let mut i: usize = 0;
    assert(text::texts(lines@) =~= want.take(0));
    while i < found.len()
        invariant
            i <= found@.len(),
            want == Seq::new(found@.len(), |i: int| match_line(found@[i])),
            text::texts(lines@) == want.take(i as int),
        decreases found@.len() - i,
    {
        let m = &found[i];
        text::push_text(
            &mut lines,
            text::cat5(
                m.file_path.as_str(),
                ":",
                text::decimal_of(m.line_number as u64).as_str(),
                ": ",
                m.line_content.as_str(),
            ),
        );
        i = i + 1;
        assert(text::texts(lines@) =~= want.take(i as int));
    }
    assert(want.take(i as int) =~= want);
    text::join(&lines, "\n")
}

impl GrepTool {
    /// The tool.
    pub fn new() -> (r: GrepTool)
        ensures
            r == GrepTool,
    {
        GrepTool
    }

    /// The name of the tool.
    pub fn name(&self) -> (r: &'static str)
        ensures
            r@ == "grep"@,
    {
        "grep"
    }

    /// What the model reads about the tool.
    pub fn description(&self) -> (r: &'static str)
        ensures
            r@ == DESCRIPTION@,
    {
        DESCRIPTION
    }

    /// What the tool is to the model.
    pub fn to_def(&self) -> (r: ToolDef)
        ensures
            r.name@ == "grep"@,
            r.description@ == DESCRIPTION@,
            r.parameters@.len() == 2,
            r.parameters@[0].name@ == "pattern"@,
            r.parameters@[0].kind == ParamType::Text,
            r.parameters@[0].required,
            r.parameters@[0].description@
                == "Regular expression to search for. Rust regex syntax. Examples: 'fn main', 'pub struct \\w+', 'TODO|FIXME', '(?i)error' for case-insensitive."@,
            r.parameters@[1].name@ == "path_glob"@,
            r.parameters@[1].kind == ParamType::Text,
            !r.parameters@[1].required,
            r.parameters@[1].description@
                == "Optional glob to limit which files to search. Default: all text files. Example: 'src/**/*.rs' to search only Rust sources. Use when searching broadly returns too much noise."@,
    {
        let mut parameters: Vec<Param> = Vec::new();
        parameters.push(
            Param {
                name: "pattern",
                kind: ParamType::Text,
                required: true,
                description: "Regular expression to search for. Rust regex syntax. Examples: 'fn main', 'pub struct \\w+', 'TODO|FIXME', '(?i)error' for case-insensitive.",
            },
        );
        parameters.push(
            Param {
                name: "path_glob",
                kind: ParamType::Text,
                required: false,
                description: "Optional glob to limit which files to search. Default: all text files. Example: 'src/**/*.rs' to search only Rust sources. Use when searching broadly returns too much noise.",
            },
        );
        ToolDef { name: "grep", description: DESCRIPTION, parameters }
    }

    /// Reports on a call.
    pub fn execute_stream(
        &self,
        args: Result<GrepArgs, String>,
        outcome: Result<Vec<GrepMatch>, FsError>,
    ) -> (r: Result<String, ToolError>)
        ensures
            tools::answer_view(r) == answer(args, outcome),
    {
        match args {
            Ok(_) => match outcome {
                Ok(found) => Ok(list(&found)),
                Err(e) => Err(fail_fs(e.kind == FsErrorKind::Regex, &e)),
            },
            Err(e) => Err(reject_args(e.as_str())),
        }
    }
}

} // verus!
