//! The tools that work on files, run commands, and ask the user.

use loomis::hooks::plan_mode_hook::PlanModeState;
use loomis::tools::ask_user_question::{AskUserQuestionArgs, AskUserQuestionTool};
use loomis::tools::enter_plan_mode::{EnterPlanModeArgs, EnterPlanModeTool};
use loomis::tools::exit_plan_mode::{
    has_no_plan, plan_content, ExitPlanModeArgs, ExitPlanModeTool, NoAnswer,
};
use loomis::tools::skill_tool::{SkillArgs, SkillTool};
use loomis::tools::tool_glob::{GlobArgs, GlobTool};
use loomis::tools::tool_grep::{GrepArgs, GrepMatch, GrepTool};
use loomis::tools::tool_ls::{format_size, EntryType, LsArgs, LsEntry, LsTool};
use loomis::tools::tool_shell::{report_command, ShellArgs, ShellTool, MAX_OUTPUT_BYTES};
use loomis::tools::write::WriteArgs;
use loomis::tools::{
    content_preview, edit, tool_edit, tool_write, FsError, FsErrorKind, ParamType, Progress,
    ToolDef, ToolError,
};
use loomis::tui::app::{ActiveSkill, Skill};
use loomis::tui::messages::InterventionResponse;
use loomis::tui::shell_exec::ShellOutcome;

// ── What the program around the library does ────────────────────────────

type Object = serde_json::Map<String, serde_json::Value>;

fn object(args: &str, known: &[&str]) -> Result<Object, String> {
    let value: serde_json::Value = serde_json::from_str(args).map_err(|e| e.to_string())?;
    let object = value.as_object().cloned().ok_or("not an object")?;
    for key in object.keys() {
        if !known.contains(&key.as_str()) {
            return Err(format!("unknown field `{key}`"));
        }
    }
    Ok(object)
}

fn text(o: &Object, name: &str) -> Result<String, String> {
    let found = o.get(name).and_then(|v| v.as_str()).map(|s| s.to_string());
    found.ok_or(format!("missing field `{name}`"))
}

fn optional(o: &Object, name: &str) -> Option<String> {
    o.get(name).and_then(|v| v.as_str()).map(|s| s.to_string())
}

fn trouble(kind: FsErrorKind, message: &str) -> FsError {
    FsError { kind, message: message.to_string() }
}

fn done(reports: &[Progress]) -> String {
    match reports.last() {
        Some(Progress::Done(s)) => {
            assert!(reports.len() > 1, "expected at least one InProgress before Done");
            s.clone()
        }
        _ => panic!("ended without Done"),
    }
}

fn required(def: &ToolDef) -> Vec<&'static str> {
    def.parameters.iter().filter(|p| p.required).map(|p| p.name).collect()
}

// ── Writing ─────────────────────────────────────────────────────────────

fn write_args(args: &str) -> Result<WriteArgs, String> {
    let o = object(args, &["file_path", "content"])?;
    Ok(WriteArgs { file_path: text(&o, "file_path")?, content: text(&o, "content")? })
}

/// A disk on which every path can be written.
struct Disk(Vec<(String, String)>);

impl Disk {
    fn put(&mut self, args: &Result<WriteArgs, String>) {
        if let Ok(a) = args {
            self.0.retain(|f| f.0 != a.file_path);
            self.0.push((a.file_path.clone(), a.content.clone()));
        }
    }

    fn read(&self, path: &str) -> String {
        self.0.iter().find(|f| f.0 == path).unwrap().1.clone()
    }

    fn write(&mut self, args: &str) -> Result<String, ToolError> {
        let args = write_args(args);
        self.put(&args);
        loomis::tools::write::WriteTool::new().execute_stream(args, Ok(())).map(|r| done(&r))
    }

    fn tool_write(&mut self, args: &str) -> Result<String, ToolError> {
        let args = write_args(args);
        self.put(&args);
        tool_write::WriteTool::new().execute_stream(args, Ok(()))
    }
}

#[test]
fn write_test_name() {
    assert_eq!(loomis::tools::write::WriteTool::new().name(), "write");
}

#[test]
fn write_test_description() {
    assert!(loomis::tools::write::WriteTool::new().description().contains("workspace"));
}

#[test]
fn write_test_parameters_schema() {
    assert_eq!(required(&loomis::tools::write::WriteTool::new().to_def()), vec!["file_path", "content"]);
}

#[test]
fn write_test_write_new_file() {
    let mut disk = Disk(Vec::new());
    let output = disk.write(r#"{"file_path": "hello.txt", "content": "hello world"}"#).unwrap();
    assert!(output.contains("hello.txt"));
    assert!(output.contains("11 bytes"));
    assert_eq!(disk.read("hello.txt"), "hello world");
}

#[test]
fn write_test_write_overwrite() {
    let mut disk = Disk(Vec::new());
    disk.write(r#"{"file_path": "f.txt", "content": "old"}"#).unwrap();
    disk.write(r#"{"file_path": "f.txt", "content": "new"}"#).unwrap();
    assert_eq!(disk.read("f.txt"), "new");
}

#[test]
fn write_test_write_nested_path() {
    let mut disk = Disk(Vec::new());
    disk.write(r#"{"file_path": "a/b/c/file.txt", "content": "deep"}"#).unwrap();
    assert_eq!(disk.read("a/b/c/file.txt"), "deep");
}

#[test]
fn write_test_write_empty_content() {
    let mut disk = Disk(Vec::new());
    disk.write(r#"{"file_path": "empty.txt", "content": ""}"#).unwrap();
    assert_eq!(disk.read("empty.txt"), "");
}

#[test]
fn write_test_missing_file_path() {
    let err = Disk(Vec::new()).write(r#"{"content": "stuff"}"#).unwrap_err();
    assert!(matches!(err, ToolError::InvalidArgs(_)));
}

#[test]
fn tool_write_test_name() {
    assert_eq!(tool_write::WriteTool::new().name(), "write");
}

#[test]
fn tool_write_test_description() {
    assert!(tool_write::WriteTool::new().description().contains("workspace"));
}

#[test]
fn tool_write_test_parameters_schema() {
    assert_eq!(required(&tool_write::WriteTool::new().to_def()), vec!["file_path", "content"]);
}

#[test]
fn tool_write_test_write_new_file() {
    let mut disk = Disk(Vec::new());
    let output =
        disk.tool_write(r#"{"file_path": "hello.txt", "content": "hello world"}"#).unwrap();
    assert_eq!(output, "Wrote 11 bytes to hello.txt");
    assert_eq!(disk.read("hello.txt"), "hello world");
}

#[test]
fn tool_write_test_missing_file_path() {
    let err = Disk(Vec::new()).tool_write(r#"{"content": "stuff"}"#).unwrap_err();
    assert!(matches!(err, ToolError::InvalidArgs(_)));
}

#[test]
fn a_write_counts_bytes_and_shows_a_preview() {
    let args = WriteArgs { file_path: "f".to_string(), content: "\u{4e2d}\nb".to_string() };
    let reports = loomis::tools::write::WriteTool::new().execute_stream(Ok(args), Ok(())).unwrap();
    assert_eq!(reports.len(), 3);
    assert!(matches!(&reports[0], Progress::InProgress(s) if s == "Writing 5 bytes to f..."));
    assert!(
        matches!(&reports[1], Progress::InProgress(s) if s == "Content: \u{4e2d} (+1 more lines)")
    );
    assert!(matches!(&reports[2], Progress::Done(s) if s == "Wrote 5 bytes to f"));
}

#[test]
fn trouble_with_a_write_is_the_callers_or_not() {
    let args = WriteArgs { file_path: "f".to_string(), content: "x".to_string() };
    let tool = loomis::tools::write::WriteTool::new();
    for (kind, at_fault) in [
        (FsErrorKind::NotAFile, true),
        (FsErrorKind::WorkspaceEscape, true),
        (FsErrorKind::NoMatch, false),
        (FsErrorKind::Other, false),
    ] {
        match tool.finish(&args, Err(trouble(kind, "no"))) {
            Err(ToolError::InvalidArgs(m)) => assert!(at_fault && m == "no"),
            Err(ToolError::Execution(m)) => assert!(!at_fault && m == "no"),
            Ok(_) => panic!("accepted"),
        }
    }
}

// ── Previews ────────────────────────────────────────────────────────────

#[test]
fn test_content_preview_delete() {
    assert!(content_preview("", "Replace with").is_empty());
}

#[test]
fn edit_test_content_preview_single_line() {
    assert_eq!(content_preview("hello world", "Replace with"), "Replace with: hello world");
}

#[test]
fn edit_test_content_preview_multi_line() {
    let preview = content_preview("line1\nline2\nline3", "Replace with");
    assert!(preview.contains("line1"));
    assert!(preview.contains("+2 more lines"));
}

#[test]
fn write_test_content_preview_single_line() {
    assert_eq!(content_preview("hello world", "Content"), "Content: hello world");
}

#[test]
fn write_test_content_preview_multi_line() {
    let preview = content_preview("line1\nline2\nline3", "Content");
    assert!(preview.contains("line1"));
    assert!(preview.contains("+2 more lines"));
}

#[test]
fn test_content_preview_long_line() {
    let long = "a".repeat(100);
    let preview = content_preview(&long, "Content");
    assert!(preview.ends_with("..."));
    assert!(preview.len() <= "Content: ".len() + 83);
    assert_eq!(preview, format!("Content: {}...", "a".repeat(77)));
}

#[test]
fn test_content_preview_empty() {
    assert!(content_preview("", "Content").is_empty());
}

#[test]
fn a_preview_shows_the_first_line_that_is_not_empty() {
    assert_eq!(content_preview("\n\nx", "Content"), "Content: x (+2 more lines)");
}

// ── Editing ─────────────────────────────────────────────────────────────

fn edit_args(args: &str) -> Result<edit::EditArgs, String> {
    let o = object(args, &["file_path", "old_content", "new_content"])?;
    Ok(edit::EditArgs {
        file_path: text(&o, "file_path")?,
        old_content: text(&o, "old_content")?,
        new_content: text(&o, "new_content")?,
    })
}

fn edited(args: &str, outcome: Result<(usize, usize), FsError>) -> Result<String, ToolError> {
    let span = outcome.map(|s| edit::EditSpan { start_line: s.0, end_line: s.1 });
    edit::EditTool::new().execute_stream(edit_args(args), span).map(|r| done(&r))
}

#[test]
fn edit_test_name() {
    assert_eq!(edit::EditTool::new().name(), "edit");
}

#[test]
fn edit_test_parameters_schema() {
    let def = edit::EditTool::new().to_def();
    assert_eq!(required(&def), vec!["file_path", "old_content", "new_content"]);
}

#[test]
fn test_replace_single_fragment() {
    let args = r#"{"file_path": "f.txt", "old_content": "line2", "new_content": "REPLACED"}"#;
    let output = edited(args, Ok((2, 2))).unwrap();
    assert!(output.contains("Edited f.txt"));
    assert!(output.contains("line 2"), "got: {output}");
    assert_eq!(output, "Edited f.txt: replaced match at line 2 (1 → 1 lines)");
}

#[test]
fn test_replace_multi_line_fragment() {
    let args = r#"{"file_path": "f.txt", "old_content": "b\nc\nd", "new_content": "X\nY"}"#;
    let output = edited(args, Ok((2, 4))).unwrap();
    assert_eq!(output, "Edited f.txt: replaced match at lines 2-4 (3 → 2 lines)");
}

#[test]
fn test_no_match_reports_helpful_error() {
    let args = r#"{"file_path": "f.txt", "old_content": "STALE_CONTENT", "new_content": "x"}"#;
    let err = edited(args, Err(trouble(FsErrorKind::NoMatch, "no match"))).unwrap_err();
    assert!(matches!(err, ToolError::InvalidArgs(_)), "got: {err:?}");
}

#[test]
fn test_ambiguous_match_reports_helpful_error() {
    let args = r#"{"file_path": "f.txt", "old_content": "x = 1;", "new_content": "x = 0;"}"#;
    let err = edited(args, Err(trouble(FsErrorKind::AmbiguousMatch, "twice"))).unwrap_err();
    assert!(matches!(err, ToolError::InvalidArgs(_)), "got: {err:?}");
}

#[test]
fn test_missing_old_content() {
    let err = edited(r#"{"file_path": "f.txt", "new_content": "x"}"#, Ok((1, 1))).unwrap_err();
    assert!(matches!(err, ToolError::InvalidArgs(_)));
}

#[test]
fn edit_test_nonexistent_file() {
    let args = r#"{"file_path": "nope.txt", "old_content": "x", "new_content": "y"}"#;
    let err = edited(args, Err(trouble(FsErrorKind::NotAFile, "no file"))).unwrap_err();
    assert!(matches!(err, ToolError::InvalidArgs(_)));
}

fn line_args(args: &str) -> Result<tool_edit::EditArgs, String> {
    let o = object(args, &["file_path", "start_line", "end_line", "new_content"])?;
    let number = |name: &str| o.get(name).and_then(|v| v.as_u64()).ok_or(format!("missing {name}"));
    Ok(tool_edit::EditArgs {
        file_path: text(&o, "file_path")?,
        start_line: number("start_line")?,
        end_line: number("end_line")?,
        new_content: text(&o, "new_content")?,
    })
}

#[test]
fn tool_edit_test_name() {
    assert_eq!(tool_edit::EditTool::new().name(), "edit");
}

#[test]
fn tool_edit_test_parameters_schema() {
    let def = tool_edit::EditTool::new().to_def();
    assert_eq!(required(&def), vec!["file_path", "start_line", "end_line", "new_content"]);
    assert_eq!(def.parameters[1].kind.label(), "integer");
}

#[test]
fn test_missing_start_line() {
    let args = line_args(r#"{"file_path": "f.txt", "end_line": 1, "new_content": "x"}"#);
    let err = tool_edit::EditTool::new().execute(args, Ok(String::new())).unwrap_err();
    assert!(matches!(err, ToolError::InvalidArgs(_)));
}

#[test]
fn tool_edit_test_nonexistent_file() {
    let args = line_args(
        r#"{"file_path": "nope.txt", "start_line": 1, "end_line": 1, "new_content": "x"}"#,
    );
    let outcome = Err(trouble(FsErrorKind::NotAFile, "no file"));
    let err = tool_edit::EditTool::new().execute(args, outcome).unwrap_err();
    assert!(matches!(err, ToolError::InvalidArgs(_)));
}

// ── Finding ─────────────────────────────────────────────────────────────

fn glob(args: &str, outcome: Result<&[&str], FsError>) -> Result<String, ToolError> {
    let args = object(args, &["pattern"])
        .and_then(|o| text(&o, "pattern"))
        .map(|pattern| GlobArgs { pattern });
    let files = outcome.map(|v| v.iter().map(|s| s.to_string()).collect());
    GlobTool::new().execute_stream(args, files)
}

#[test]
fn tool_glob_test_name() {
    assert_eq!(GlobTool::new().name(), "glob");
}

#[test]
fn tool_glob_test_parameters_schema() {
    assert_eq!(required(&GlobTool::new().to_def()), vec!["pattern"]);
}

#[test]
fn test_glob_rs_files() {
    let result = glob(r#"{"pattern": "*.rs"}"#, Ok(&["lib.rs", "main.rs"])).unwrap();
    assert!(result.contains("lib.rs"));
    assert!(result.contains("main.rs"));
    assert!(!result.contains("Cargo.toml"));
    assert_eq!(result, "lib.rs\nmain.rs");
}

#[test]
fn test_glob_no_match() {
    let result = glob(r#"{"pattern": "*.nonexistent"}"#, Ok(&[])).unwrap();
    assert_eq!(result, "No files matched.");
}

#[test]
fn tool_glob_test_missing_pattern() {
    let err = glob("{}", Ok(&[])).unwrap_err();
    assert!(matches!(err, ToolError::InvalidArgs(_)));
}

#[test]
fn a_bad_glob_is_the_callers_fault() {
    let bad = trouble(FsErrorKind::GlobPattern, "bad");
    assert!(matches!(glob(r#"{"pattern": "["}"#, Err(bad)), Err(ToolError::InvalidArgs(_))));
    let other = trouble(FsErrorKind::Other, "disk");
    assert!(matches!(glob(r#"{"pattern": "*"}"#, Err(other)), Err(ToolError::Execution(_))));
}

fn grep(args: &str, outcome: Result<Vec<GrepMatch>, FsError>) -> Result<String, ToolError> {
    let args = object(args, &["pattern", "path_glob"]).and_then(|o| {
        Ok(GrepArgs { pattern: text(&o, "pattern")?, path_glob: optional(&o, "path_glob") })
    });
    GrepTool::new().execute_stream(args, outcome)
}

fn hit(file: &str, line: usize, content: &str) -> GrepMatch {
    GrepMatch {
        file_path: file.to_string(),
        line_number: line,
        line_content: content.to_string(),
    }
}

#[test]
fn tool_grep_test_name() {
    assert_eq!(GrepTool::new().name(), "grep");
}

#[test]
fn tool_grep_test_parameters_schema() {
    assert_eq!(required(&GrepTool::new().to_def()), vec!["pattern"]);
}

#[test]
fn test_grep_find_function() {
    let found = vec![hit("a.rs", 1, "fn main() {"), hit("a.rs", 4, "fn test() {}")];
    let result = grep(r#"{"pattern": "fn "}"#, Ok(found)).unwrap();
    assert!(result.contains("fn main()"));
    assert!(result.contains("fn test()"));
    assert_eq!(result, "a.rs:1: fn main() {\na.rs:4: fn test() {}");
}

#[test]
fn test_grep_no_match() {
    let result = grep(r#"{"pattern": "NOMATCH"}"#, Ok(Vec::new())).unwrap();
    assert!(result.contains("No matches"));
}

#[test]
fn test_grep_invalid_regex() {
    let bad = trouble(FsErrorKind::Regex, "unclosed");
    let err = grep(r#"{"pattern": "[unclosed"}"#, Err(bad)).unwrap_err();
    assert!(matches!(err, ToolError::InvalidArgs(_)));
}

#[test]
fn tool_grep_test_missing_pattern() {
    let err = grep("{}", Ok(Vec::new())).unwrap_err();
    assert!(matches!(err, ToolError::InvalidArgs(_)));
}

#[test]
fn test_grep_output_format() {
    let result = grep(r#"{"pattern": "fn"}"#, Ok(vec![hit("test.rs", 1, "fn hello() {")])).unwrap();
    assert!(result.contains("test.rs:1: fn hello()"));
}

// ── Listing ─────────────────────────────────────────────────────────────

fn ls(args: &str, outcome: Result<Vec<LsEntry>, FsError>) -> Result<String, ToolError> {
    let args = object(args, &["path"]).map(|o| LsArgs { path: optional(&o, "path") });
    LsTool::new().execute(args, outcome)
}

fn entry(name: &str, entry_type: EntryType, size: u64, scaled: &str) -> LsEntry {
    LsEntry { name: name.to_string(), entry_type, size, scaled: scaled.to_string() }
}

#[test]
fn tool_ls_test_name() {
    assert_eq!(LsTool::new().name(), "ls");
}

#[test]
fn tool_ls_test_parameters_schema() {
    let def = LsTool::new().to_def();
    assert!(required(&def).is_empty());
    assert_eq!(def.parameters[0].kind, ParamType::Text);
}

#[test]
fn test_ls_root_empty() {
    assert!(ls("{}", Ok(Vec::new())).unwrap().contains("(empty directory)"));
}

#[test]
fn test_ls_with_files_and_dirs() {
    let entries = vec![
        entry("bar", EntryType::Dir, 4096, "4.0"),
        entry("foo.txt", EntryType::File, 5, ""),
    ];
    let result = ls("{}", Ok(entries)).unwrap();
    let lines: Vec<&str> = result.lines().collect();
    assert_eq!(lines.len(), 2);
    assert!(lines[0].starts_with("d"));
    assert!(lines[0].contains("bar"));
    assert!(lines[1].starts_with("-"));
    assert!(lines[1].contains("foo.txt"));
}

#[test]
fn test_ls_subdirectory() {
    let entries = vec![
        entry("a.txt", EntryType::File, 0, ""),
        entry("b.txt", EntryType::Symlink, 0, ""),
    ];
    let result = ls(r#"{"path": "sub"}"#, Ok(entries)).unwrap();
    assert!(result.contains("a.txt"));
    assert!(result.contains("b.txt"));
    let args = LsArgs { path: Some("sub".to_string()) };
    assert_eq!(LsTool::new().directory(&args), Some("sub".to_string()));
}

#[test]
fn test_ls_not_a_directory() {
    let bad = trouble(FsErrorKind::NotADirectory, "a file");
    let err = ls(r#"{"path": "file.txt"}"#, Err(bad)).unwrap_err();
    assert!(matches!(err, ToolError::InvalidArgs(_)));
}

#[test]
fn test_ls_without_path_param() {
    assert!(ls("{}", Ok(Vec::new())).unwrap().contains("(empty directory)"));
    assert_eq!(LsTool::new().directory(&LsArgs { path: None }), None);
    assert_eq!(LsTool::new().directory(&LsArgs { path: Some(String::new()) }), None);
}

#[test]
fn sizes_are_short() {
    assert_eq!(format_size(256, ""), "256 B");
    assert_eq!(format_size(1229, "1.2"), "1.2 K");
    assert_eq!(format_size(3 << 20, "3.0"), "3.0 M");
    assert_eq!(format_size(5 << 30, "5.0"), "5.0 G");
}

// ── Commands ────────────────────────────────────────────────────────────

fn shell_args(args: &str) -> Result<ShellArgs, String> {
    let o = object(args, &["command", "timeout_secs"])?;
    let timeout_secs = o.get("timeout_secs").and_then(|v| v.as_u64());
    Ok(ShellArgs { command: text(&o, "command")?, timeout_secs })
}

fn finished(stdout: &[u8], stderr: &[u8], exit_code: Option<i32>) -> ShellOutcome {
    ShellOutcome::Finished { stdout: stdout.to_vec(), stderr: stderr.to_vec(), exit_code }
}

fn shell_error(args: &str) -> String {
    match ShellTool::new(30).prepare(shell_args(args)) {
        Err(ToolError::InvalidArgs(msg)) => msg,
        other => panic!("expected InvalidArgs, got {other:?}"),
    }
}

#[test]
fn tool_shell_test_name() {
    assert_eq!(ShellTool::new(30).name(), "shell");
}

#[test]
fn tool_shell_test_description() {
    assert!(!ShellTool::new(30).description().is_empty());
}

#[test]
fn tool_shell_test_parameters_schema() {
    let def = ShellTool::new(30).to_def();
    assert_eq!(required(&def), vec!["command"]);
    assert_eq!(def.parameters[0].kind.label(), "string");
}

#[test]
fn test_execute_echo() {
    let tool = ShellTool::new(30);
    let request = tool.prepare(shell_args(r#"{"command": "echo hello"}"#)).unwrap();
    assert_eq!(request.command, "echo hello");
    assert_eq!(request.timeout_secs, 30);
    let result = tool.execute(&finished(b"hello\n", b"", Some(0))).unwrap();
    assert!(result.contains("hello"), "got: {result}");
}

#[test]
fn test_execute_non_zero_exit() {
    let result = ShellTool::new(30).execute(&finished(b"", b"", Some(42))).unwrap();
    assert_eq!(result, "(exit code: 42, no output)");
}

#[test]
fn test_execute_missing_command() {
    let msg = shell_error(r#"{"timeout_secs": 5}"#);
    assert!(msg.contains("command"), "got: {msg}");
}

#[test]
fn test_execute_empty_command() {
    let msg = shell_error(r#"{"command": "   "}"#);
    assert!(msg.contains("command"), "got: {msg}");
}

#[test]
fn tool_shell_test_execute_bad_json() {
    let msg = shell_error("not json");
    assert!(msg.contains("invalid args"), "got: {msg}");
}

#[test]
fn test_execute_no_output() {
    let result = ShellTool::new(30).execute(&finished(b"", b"", Some(0))).unwrap();
    assert!(result.contains("no output"), "got: {result}");
}

#[test]
fn test_execute_with_timeout_in_args() {
    let args = shell_args(r#"{"command": "echo fast", "timeout_secs": 10}"#);
    let request = ShellTool::new(30).prepare(args).unwrap();
    assert_eq!(request.timeout_secs, 10);
}

#[test]
fn test_execute_stderr_captured() {
    let result = ShellTool::new(30).execute(&finished(b"", b"error text\n", Some(0))).unwrap();
    assert!(result.contains("error text"), "got: {result}");
}

#[test]
fn outputs_are_decoded_leniently() {
    let result = ShellTool::new(30).execute(&finished(b"a\xffb", b"", Some(0))).unwrap();
    assert_eq!(result, "a\u{fffd}b");
    assert!(report_command("", "", None).contains("signal"));
    assert!(report_command("x", "", Some(-1)).ends_with("[exit code: -1]"));
}

#[test]
fn a_report_never_exceeds_the_limit() {
    let tool = ShellTool::new(30);
    let full = vec![b'x'; MAX_OUTPUT_BYTES];
    let report = tool.execute(&finished(&full, b"", Some(0))).unwrap();
    assert_eq!(report.len(), MAX_OUTPUT_BYTES);
    assert!(report.bytes().all(|b| b == b'x'));
    let report = tool.execute(&finished(&full, b"", Some(1))).unwrap();
    assert!(report.len() <= MAX_OUTPUT_BYTES);
    assert!(report.ends_with("[exit code: 1]"));
    let report = tool.execute(&finished(&full, &full, Some(0))).unwrap();
    assert!(report.len() <= MAX_OUTPUT_BYTES);
    let wide = "\u{4f60}".repeat(MAX_OUTPUT_BYTES / 2);
    let report = report_command(&wide, "", Some(2));
    assert!(report.len() <= MAX_OUTPUT_BYTES);
    assert!(report.starts_with('\u{4f60}') && report.ends_with("[exit code: 2]"));
}

#[test]
fn commands_that_do_not_run_fail() {
    let tool = ShellTool::new(30);
    let err = tool.execute(&ShellOutcome::NotSpawned("no shell".to_string())).unwrap_err();
    assert!(
        matches!(err, ToolError::Execution(ref m) if m == "Failed to spawn command: no shell")
    );
    let err = tool.execute(&ShellOutcome::NotAwaited("lost".to_string())).unwrap_err();
    assert!(
        matches!(err, ToolError::Execution(ref m) if m == "Failed to wait on command: lost")
    );
}

// ── Questions ───────────────────────────────────────────────────────────

fn ask_args(args: &str) -> Result<AskUserQuestionArgs, String> {
    let o = object(args, &["question", "description", "options"])?;
    let options = o.get("options").and_then(|v| v.as_array()).map(|v| {
        v.iter().filter_map(|s| s.as_str()).map(|s| s.to_string()).collect::<Vec<String>>()
    });
    Ok(AskUserQuestionArgs {
        question: text(&o, "question")?,
        description: optional(&o, "description"),
        options,
    })
}

fn reply(chosen: Option<usize>, custom: Option<&str>) -> InterventionResponse {
    InterventionResponse { chosen, custom_text: custom.map(|s| s.to_string()) }
}

#[test]
fn ask_user_question_test_name() {
    assert_eq!(AskUserQuestionTool::new().name(), "ask_user_question");
}

#[test]
fn ask_user_question_test_description() {
    assert!(AskUserQuestionTool::new().description().contains("Ask the user"));
}

#[test]
fn ask_user_question_test_parameters_schema() {
    assert!(required(&AskUserQuestionTool::new().to_def()).contains(&"question"));
}

#[test]
fn ask_user_question_test_invalid_json() {
    let err = AskUserQuestionTool::new().request("q", &ask_args("garbage"), true).unwrap_err();
    assert!(matches!(err, ToolError::InvalidArgs(_)));
}

#[test]
fn test_missing_question_field() {
    let args = ask_args(r#"{"wrong": "field"}"#);
    let err = AskUserQuestionTool::new().request("q", &args, true).unwrap_err();
    assert!(matches!(err, ToolError::InvalidArgs(_)));
}

#[test]
fn ask_user_question_test_extra_field_rejected() {
    let args = ask_args(r#"{"question": "hello", "extra": true}"#);
    let err = AskUserQuestionTool::new().request("q", &args, true).unwrap_err();
    assert!(matches!(err, ToolError::InvalidArgs(_)));
}

#[test]
fn a_question_is_answered() {
    let tool = AskUserQuestionTool::new();
    let args = ask_args(r#"{"question": "Which?", "options": ["a", "b"]}"#);
    let request = tool.request("q1", &args, true).unwrap();
    assert_eq!(request.title, "Which?");
    assert_eq!(request.options, vec!["a", "b"]);
    assert_eq!(tool.finish(&request.options, Ok(reply(Some(1), None))).unwrap(), "b");
    assert_eq!(tool.finish(&request.options, Ok(reply(Some(1), Some("mine")))).unwrap(), "mine");
    assert_eq!(tool.finish(&request.options, Ok(reply(Some(7), None))).unwrap(), "Option 7");
    assert!(tool.finish(&request.options, Ok(reply(None, None))).is_err());
    assert!(tool.finish(&request.options, Err(NoAnswer::Timeout)).is_err());
    assert!(tool.finish(&request.options, Err(NoAnswer::Disconnected)).is_err());
    assert!(tool.request("q1", &args, false).is_err());
    let open = tool.request("q2", &ask_args(r#"{"question": "What?"}"#), true).unwrap();
    assert_eq!(open.options, vec!["Answer…"]);
}

// ── Plan mode ───────────────────────────────────────────────────────────

const PLAN_FILE: &str = "/ws/.loomis/plan.md";

fn enter_tool() -> EnterPlanModeTool {
    EnterPlanModeTool::new(PLAN_FILE.to_string())
}

fn exit_tool() -> ExitPlanModeTool {
    ExitPlanModeTool::new(PLAN_FILE.to_string())
}

fn enter_args(args: &str) -> Result<EnterPlanModeArgs, String> {
    object(args, &[]).map(|_| EnterPlanModeArgs)
}

fn exit_args(args: &str) -> Result<ExitPlanModeArgs, String> {
    object(args, &[]).map(|_| ExitPlanModeArgs)
}

#[test]
fn enter_plan_mode_test_name() {
    assert_eq!(enter_tool().name(), "enter_plan_mode");
}

#[test]
fn enter_plan_mode_test_description() {
    assert!(enter_tool().description().contains("plan mode"));
}

#[test]
fn enter_plan_mode_test_parameters_schema() {
    assert!(enter_tool().to_def().parameters.is_empty());
}

#[test]
fn test_activates_plan_mode() {
    let mut state = PlanModeState::default();
    assert!(!state.active);
    let output = enter_tool().execute_stream(&mut state, enter_args("{}"), Ok(())).unwrap();
    assert!(output.contains("activated"));
    assert!(state.active);
}

#[test]
fn test_noop_when_already_active() {
    let mut state = PlanModeState { active: true };
    let output = enter_tool().execute_stream(&mut state, enter_args("{}"), Ok(())).unwrap();
    assert!(output.contains("Already in plan mode"));
    assert!(state.active);
}

#[test]
fn enter_plan_mode_test_invalid_json_rejected() {
    let mut state = PlanModeState::default();
    let err =
        enter_tool().execute_stream(&mut state, enter_args("garbage"), Ok(())).unwrap_err();
    assert!(matches!(err, ToolError::InvalidArgs(_)));
}

#[test]
fn plan_mode_needs_its_directory() {
    let mut state = PlanModeState::default();
    assert!(enter_tool().needs_directory(PlanModeState { active: false }));
    let outcome =
        enter_tool().execute_stream(&mut state, enter_args("{}"), Err("read-only".to_string()));
    assert!(matches!(outcome, Err(ToolError::Execution(ref m)) if m.ends_with("read-only")));
    assert!(!state.active);
}

#[test]
fn exit_plan_mode_test_name() {
    assert_eq!(exit_tool().name(), "exit_plan_mode");
}

#[test]
fn exit_plan_mode_test_description() {
    assert!(exit_tool().description().contains("plan mode"));
}

#[test]
fn exit_plan_mode_test_parameters_schema() {
    assert!(exit_tool().to_def().parameters.is_empty());
}

#[test]
fn test_error_when_not_in_plan_mode() {
    let err = exit_tool().begin(PlanModeState::default(), exit_args("{}")).unwrap_err();
    assert!(
        matches!(err, ToolError::Execution(ref msg) if msg.contains("Not in plan mode")),
        "expected 'Not in plan mode' error, got: {err:?}"
    );
}

#[test]
fn exit_plan_mode_test_invalid_json_rejected() {
    let err = exit_tool().begin(PlanModeState::default(), exit_args("garbage")).unwrap_err();
    assert!(matches!(err, ToolError::InvalidArgs(_)));
}

#[test]
fn exit_plan_mode_test_extra_field_rejected() {
    let err =
        exit_tool().begin(PlanModeState::default(), exit_args(r#"{"extra": true}"#)).unwrap_err();
    assert!(matches!(err, ToolError::InvalidArgs(_)));
}

#[test]
fn only_approval_ends_plan_mode() {
    let tool = exit_tool();
    let request = tool.request("q", "1. Do it.");
    assert_eq!(request.options, vec!["Approve", "Suggest changes…", "Cancel"]);
    assert!(request.description.contains("1. Do it."));
    for (answer, stays) in [
        (Ok(reply(Some(0), None)), false),
        (Ok(reply(Some(1), Some("shorter"))), true),
        (Ok(reply(Some(2), None)), true),
        (Ok(reply(None, None)), true),
        (Err(NoAnswer::Timeout), true),
        (Err(NoAnswer::Disconnected), true),
    ] {
        let mut state = PlanModeState { active: true };
        let _ = tool.finish(&mut state, false, answer);
        assert_eq!(state.active, stays);
    }
    assert!(has_no_plan(" \n"));
    assert!(!has_no_plan("x"));
    assert_eq!(plan_content(Err("gone".to_string())), "(Could not read plan file: gone)");
}

// ── Skills ──────────────────────────────────────────────────────────────

fn skill_args(args: &str) -> Result<SkillArgs, String> {
    object(args, &["name"]).and_then(|o| text(&o, "name")).map(|name| SkillArgs { name })
}

#[test]
fn skill_tool_test_name() {
    assert_eq!(SkillTool::new(Vec::new()).name(), "skill");
}

#[test]
fn skill_tool_test_description() {
    assert!(SkillTool::new(Vec::new()).description().contains("Load a skill"));
}

#[test]
fn test_schema() {
    let def = SkillTool::new(Vec::new()).to_def();
    assert_eq!(def.parameters[0].name, "name");
    assert_eq!(def.parameters[0].kind.label(), "string");
}

#[test]
fn test_execute_unknown_skill_returns_error() {
    let mut active: Vec<ActiveSkill> = Vec::new();
    let tool = SkillTool::new(Vec::new());
    let err = tool
        .execute_stream(&mut active, skill_args(r#"{"name":"nonexistent"}"#))
        .unwrap_err();
    assert!(matches!(err, ToolError::InvalidArgs(_)));
    let msg = format!("{err:?}");
    assert!(msg.contains("nonexistent"));
}

#[test]
fn test_execute_missing_name_field() {
    let mut active: Vec<ActiveSkill> = Vec::new();
    let err = SkillTool::new(Vec::new()).execute_stream(&mut active, skill_args("{}")).unwrap_err();
    assert!(matches!(err, ToolError::InvalidArgs(_)));
}

#[test]
fn test_execute_updates_active_skills() {
    let mut active: Vec<ActiveSkill> = Vec::new();
    let tool = SkillTool::new(vec![Skill {
        name: "test-skill".to_string(),
        description: "A test skill.".to_string(),
        content: "Skill content here.".to_string(),
    }]);
    let result =
        tool.execute_stream(&mut active, skill_args(r#"{"name":"test-skill"}"#)).unwrap();
    assert_eq!(result, "Skill content here.");
    assert_eq!(active.len(), 1);
    assert_eq!(active[0].name, "test-skill");
    assert_eq!(active[0].content, "Skill content here.");
}
