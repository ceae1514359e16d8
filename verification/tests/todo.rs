//! The task list.

use loomis::tools::todo::{TodoItem, TodoTool, TodoToolArgs};
use loomis::tools::{ParamType, ToolError};

fn decode(args: &str) -> Result<TodoToolArgs, String> {
    let value: serde_json::Value = serde_json::from_str(args).map_err(|e| e.to_string())?;
    let object = value.as_object().ok_or("not an object")?;
    for key in object.keys() {
        if key != "todos" {
            return Err(format!("unknown field `{key}`"));
        }
    }
    let items = object.get("todos").and_then(|v| v.as_array()).ok_or("missing field `todos`")?;
    let mut todos: Vec<TodoItem> = Vec::new();
    for item in items {
        let field = |name: &str| -> Result<String, String> {
            let text = item.get(name).and_then(|v| v.as_str());
            text.map(|s| s.to_string()).ok_or(format!("missing field `{name}`"))
        };
        todos.push(TodoItem {
            content: field("content")?,
            status: field("status")?,
            active_form: field("active_form")?,
        });
    }
    Ok(TodoToolArgs { todos })
}

fn execute(tool: &mut TodoTool, args: &str) -> Result<String, ToolError> {
    tool.execute_stream(decode(args))
}

fn make_tool() -> TodoTool {
    TodoTool::new(Vec::new())
}

fn item(content: &str, status: &str) -> TodoItem {
    TodoItem {
        content: content.to_string(),
        status: status.to_string(),
        active_form: format!("Doing {content}"),
    }
}

#[test]
fn todo_test_name() {
    assert_eq!(make_tool().name(), "todo");
}

#[test]
fn todo_test_description() {
    let tool = make_tool();
    let desc = tool.description();
    assert!(desc.contains("task list"), "got: {desc}");
    assert!(desc.contains("plan"), "got: {desc}");
}

#[test]
fn test_parameter_schema() {
    let def = make_tool().to_def();
    assert_eq!(def.parameters.len(), 1);
    assert_eq!(def.parameters[0].name, "todos");
    assert_eq!(def.parameters[0].kind, ParamType::List);
    assert_eq!(def.parameters[0].kind.label(), "array");
}

#[test]
fn todo_test_invalid_json() {
    let err = execute(&mut make_tool(), "garbage").unwrap_err();
    assert!(matches!(err, ToolError::InvalidArgs(_)));
}

#[test]
fn test_missing_todos_field() {
    let err = execute(&mut make_tool(), r#"{"wrong": "field"}"#).unwrap_err();
    assert!(matches!(err, ToolError::InvalidArgs(_)));
}

#[test]
fn todo_test_extra_field_rejected() {
    let err = execute(&mut make_tool(), r#"{"todos": [], "extra": true}"#).unwrap_err();
    assert!(matches!(err, ToolError::InvalidArgs(_)));
}

#[test]
fn test_empty_list() {
    let result = execute(&mut make_tool(), r#"{"todos": []}"#).unwrap();
    assert!(result.contains("Cleared"));
}

#[test]
fn test_valid_todos() {
    let mut tool = make_tool();
    let input = r#"{"todos": [
        {"content": "task 1", "status": "completed", "active_form": "Doing task 1"},
        {"content": "task 2", "status": "in_progress", "active_form": "Doing task 2"},
        {"content": "task 3", "status": "pending", "active_form": "Doing task 3"}
    ]}"#;

    let result = execute(&mut tool, input).unwrap();

    assert!(result.contains("3 todos"));
    assert!(result.contains("completed"));
    assert!(result.contains("in progress"));
    assert!(result.contains("pending"));

    assert_eq!(tool.state.len(), 3);
    assert_eq!(tool.state[0].status, "completed");
    assert_eq!(tool.state[1].status, "in_progress");
    assert_eq!(tool.state[2].status, "pending");
}

#[test]
fn test_invalid_status_rejected() {
    let input = r#"{"todos": [
        {"content": "bad", "status": "unknown", "active_form": "???"}
    ]}"#;
    let err = execute(&mut make_tool(), input).unwrap_err();
    assert!(
        matches!(err, ToolError::InvalidArgs(ref msg) if msg.contains("invalid status")),
        "expected InvalidArgs with 'invalid status', got: {err:?}"
    );
}

#[test]
fn test_multiple_in_progress_rejected() {
    let input = r#"{"todos": [
        {"content": "a", "status": "in_progress", "active_form": "A"},
        {"content": "b", "status": "in_progress", "active_form": "B"}
    ]}"#;
    let err = execute(&mut make_tool(), input).unwrap_err();
    assert!(
        matches!(err, ToolError::InvalidArgs(ref msg) if msg.contains("at most one")),
        "expected InvalidArgs with 'at most one', got: {err:?}"
    );
}

#[test]
fn test_state_cleared_on_empty_list() {
    let mut tool = make_tool();
    execute(
        &mut tool,
        r#"{"todos": [{"content": "task", "status": "pending", "active_form": "T"}]}"#,
    )
    .unwrap();
    assert_eq!(tool.state.len(), 1);

    execute(&mut tool, r#"{"todos": []}"#).unwrap();
    assert!(tool.state.is_empty());
}

#[test]
fn a_refused_list_changes_nothing() {
    let mut tool = TodoTool::new(vec![item("keep", "pending")]);
    let args = TodoToolArgs { todos: vec![item("bad", "done")] };
    assert!(tool.execute_stream(Ok(args)).is_err());
    assert_eq!(tool.state.len(), 1);
    assert_eq!(tool.state[0].content, "keep");
}

#[test]
fn an_invalid_status_is_quoted() {
    let args = TodoToolArgs { todos: vec![item("say \"hi\"", "don\te")] };
    match make_tool().execute_stream(Ok(args)) {
        Err(ToolError::InvalidArgs(m)) => {
            assert!(m.contains("\"don\\te\""), "got: {m}");
        }
        _ => panic!("accepted"),
    }
}
