//! Lists a directory.

use vstd::prelude::*;
use crate::text;
use crate::tools::{
    self, fail_fs, reject_args, ErrorView, FsError, FsErrorKind, Param, ParamType, ToolDef,
    ToolError,
};

verus! {

/// What the model reads about the tool.
pub const DESCRIPTION: &'static str = "List the contents of a directory in the workspace. Entries are shown with type, size, and name. Directories are listed first, then files. Sizes use human-readable format (B, K, M, G).\n\nOutput format:\n```\nd        -  dir_name/\n-    1.2 K  file_name.rs\n-    256 B  another_file.md\n```\nColumn 1: d=directory, -=file, l=symlink. Column 2: size.\n\nWhen to use: exploring project structure, checking what is in a directory before reading or editing, verifying that a file or directory exists.\n\nWhen NOT to use: finding files by pattern (use glob — sorted, recursive, cleaner for pattern-based search), searching content (use grep), reading a file (use read).\n\nOmit the path argument to list the workspace root. Returns '(empty directory)' when the directory has no entries.";

/// The arguments of the tool.
#[derive(Clone, Debug)]
pub struct LsArgs {
    pub path: Option<String>,
}

/// What an entry is.
#[derive(Clone, Copy, Debug, PartialEq, Eq, Structural)]
pub enum EntryType {
    Dir,
    Symlink,
    File,
}

/// An entry of a directory.
#[derive(Clone, Debug)]
pub struct LsEntry {
    pub name: String,
    pub entry_type: EntryType,
    pub size: u64,
    /// The size in the unit that it is shown in, with one decimal.
    pub scaled: String,
}

/// The tool.
#[derive(Clone, Copy, Debug, PartialEq, Eq, Structural)]
pub struct LsTool;

/// A size, in the largest unit of 1024 steps that it reaches.
pub open spec fn size_text(bytes: u64, scaled: Seq<char>) -> Seq<char> {
    if bytes >= 1_073_741_824 {
        scaled + " G"@
    } else if bytes >= 1_048_576 {
        scaled + " M"@
    } else if bytes >= 1024 {
        scaled + " K"@
    } else {
        text::decimal(bytes as nat) + " B"@
    }
}

/// Formats a size, such as `1.2 K` or `256 B`. `scaled` is the size in its
/// unit, with one decimal.
pub fn format_size(bytes: u64, scaled: &str) -> (r: String)
    ensures
        r@ == size_text(bytes, scaled@),
{
    if bytes >= 1_073_741_824 {
        text::cat2(scaled, " G")
    } else if bytes >= 1_048_576 {
        text::cat2(scaled, " M")
    } else if bytes >= 1024 {
        text::cat2(scaled, " K")
    } else {
        text::cat2(text::decimal_of(bytes).as_str(), " B")
    }
}

/// The line of an entry: its type, its size, and its name. A directory has
/// no size.
pub open spec fn entry_line(e: LsEntry) -> Seq<char> {
    (match e.entry_type {
        EntryType::Dir => "d"@,
        EntryType::Symlink => "l"@,
        EntryType::File => "-"@,
    }) + " "@ + text::padded_left(
        if e.entry_type == EntryType::Dir {
            "-"@
        } else {
            size_text(e.size, e.scaled@)
        },
        8,
        ' ',
    ) + "  "@ + e.name@
}

/// The lines of a directory.
pub open spec fn listing(entries: Seq<LsEntry>) -> Seq<char> {
    if entries.len() == 0 {
        "(empty directory)"@
    } else {
        text::joined(Seq::new(entries.len(), |i: int| entry_line(entries[i])), "\n"@)
    }
}

/// Whether the arguments are at fault where a listing failed.
pub open spec fn blames_args(kind: FsErrorKind) -> bool {
    kind == FsErrorKind::NotADirectory || kind == FsErrorKind::WorkspaceEscape
}

/// What the tool answers: the entries, or why they could not be listed.
pub open spec fn answer(
    args: Result<LsArgs, String>,
    outcome: Result<Vec<LsEntry>, FsError>,
) -> Result<Seq<char>, ErrorView> {
    match args {
        Ok(_) => match outcome {
            Ok(entries) => Ok(listing(entries@)),
            Err(e) => Err(tools::fs_failure(blames_args(e.kind), e.message@)),
        },
        Err(e) => Err(tools::undecoded(e@)),
    }
}

fn entry_line_of(e: &LsEntry) -> (r: String)
    ensures
        r@ == entry_line(*e),
{
    let mark = match e.entry_type {
        EntryType::Dir => "d",
        EntryType::Symlink => "l",
        EntryType::File => "-",
    };
    let size = if e.entry_type == EntryType::Dir {
        "-".to_owned()
    } else {
        format_size(e.size, e.scaled.as_str())
    };
    text::cat5(
        mark,
        " ",
        text::pad_left(size.as_str(), 8, ' ').as_str(),
        "  ",
        e.name.as_str(),
    )
}

fn list(entries: &Vec<LsEntry>) -> (r: String)
    ensures
        r@ == listing(entries@),
{
    if entries.len() == 0 {
        return "(empty directory)".to_owned();
    }
    let ghost want = Seq::new(entries@.len(), |i: int| entry_line(entries@[i]));
    let mut lines: Vec<String> = Vec::new();
    let mut i: usize = 0;
    assert(text::texts(lines@) =~= want.take(0));
    while i < entries.len()
        invariant
            i <= entries@.len(),
            want == Seq::new(entries@.len(), |i: int| entry_line(entries@[i])),
            text::texts(lines@) == want.take(i as int),
        decreases entries@.len() - i,
    {
        text::push_text(&mut lines, entry_line_of(&entries[i]));
        i = i + 1;
        assert(text::texts(lines@) =~= want.take(i as int));
    }
    assert(want.take(i as int) =~= want);
    text::join(&lines, "\n")
}

impl LsTool {
    /// The tool.
    pub fn new() -> (r: LsTool)
        ensures
            r == LsTool,
    {
        LsTool
    }

    /// The name of the tool.
    pub fn name(&self) -> (r: &'static str)
        ensures
            r@ == "ls"@,
    {
        "ls"
    }

    /// What the model reads about the tool.
    pub fn description(&self) -> (r: &'static str)
        ensures
            r@ == DESCRIPTION@,
    {
        DESCRIPTION
    }

    /// What the tool is to the model.
    pub fn to_def(&self) -> (r: ToolDef)
        ensures
            r.name@ == "ls"@,
            r.description@ == DESCRIPTION@,
            r.parameters@.len() == 1,
            r.parameters@[0].name@ == "path"@,
            r.parameters@[0].kind == ParamType::Text,
            !r.parameters@[0].required,
            r.parameters@[0].description@
                == "Directory to list, relative to workspace root. Omit, pass empty string, or pass '.' to list the workspace root. Must be a directory — passing a file path returns an error."@,
    {
        let mut parameters: Vec<Param> = Vec::new();
        parameters.push(
            Param {
                name: "path",
                kind: ParamType::Text,
                required: false,
                description: "Directory to list, relative to workspace root. Omit, pass empty string, or pass '.' to list the workspace root. Must be a directory — passing a file path returns an error.",
            },
        );
        ToolDef { name: "ls", description: DESCRIPTION, parameters }
    }

    /// The directory that is asked for; `None` is the workspace itself.
    pub fn directory(&self, args: &LsArgs) -> (r: Option<String>)
        ensures
            text::opt_text(r) == match args.path {
                Some(p) => if p@.len() == 0 {
                    None
                } else {
                    Some(p@)
                },
                None => None,
            },
    {
        match &args.path {
            Some(p) => {
                if p.as_str().is_empty() {
                    None
                } else {
                    Some(p.clone())
                }
            },
            None => None,
        }
    }

    /// Reports on a call.
    pub fn execute(
        &self,
        args: Result<LsArgs, String>,
        outcome: Result<Vec<LsEntry>, FsError>,
    ) -> (r: Result<String, ToolError>)
        ensures
            tools::answer_view(r) == answer(args, outcome),
    {
        match args {
            Ok(_) => match outcome {
                Ok(entries) => Ok(list(&entries)),
                Err(e) => {
                    let at_fault = e.kind == FsErrorKind::NotADirectory || e.kind
                        == FsErrorKind::WorkspaceEscape;
                    Err(fail_fs(at_fault, &e))
                },
            },
            Err(e) => Err(reject_args(e.as_str())),
        }
    }
}

} // verus!
