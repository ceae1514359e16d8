//! The tool that returns its input.

use loomis::tools::echo::{EchoArgs, EchoTool};
use loomis::tools::{ParamType, ToolError};

fn decode(args: &str) -> Result<EchoArgs, String> {
    let value: serde_json::Value = serde_json::from_str(args).map_err(|e| e.to_string())?;
    let object = value.as_object().ok_or("not an object")?;
    for key in object.keys() {
        if key != "text" {
            return Err(format!("unknown field `{key}`"));
        }
    }
    let text = object.get("text").and_then(|v| v.as_str()).ok_or("missing field `text`")?;
    Ok(EchoArgs { text: text.to_string() })
}

fn execute(args: &str) -> Result<String, ToolError> {
    EchoTool.execute_stream(decode(args))
}

#[test]
fn echo_test_name() {
    assert_eq!(EchoTool.name(), "echo");
}

#[test]
fn echo_test_description() {
    assert!(EchoTool.description().contains("no-op"));
}

#[test]
fn echo_test_parameters_schema() {
    let def = EchoTool.to_def();
    assert_eq!(def.parameters.len(), 1);
    assert_eq!(def.parameters[0].name, "text");
    assert_eq!(def.parameters[0].kind, ParamType::Text);
    assert_eq!(def.parameters[0].kind.label(), "string");
}

#[test]
fn test_execute_returns_text() {
    assert_eq!(execute(r#"{"text": "hello world"}"#).unwrap(), "hello world");
}

#[test]
fn test_execute_empty_string() {
    assert_eq!(execute(r#"{"text": ""}"#).unwrap(), "");
}

#[test]
fn test_execute_missing_field() {
    let err = execute(r#"{"wrong": "x"}"#).unwrap_err();
    assert!(matches!(err, ToolError::InvalidArgs(_)));
}

#[test]
fn echo_test_execute_bad_json() {
    let err = execute("garbage").unwrap_err();
    assert!(matches!(err, ToolError::InvalidArgs(_)));
}

#[test]
fn test_execute_extra_field_rejected() {
    let err = execute(r#"{"text": "hello", "extra": true}"#).unwrap_err();
    assert!(matches!(err, ToolError::InvalidArgs(_)));
}

#[test]
fn test_to_def_matches() {
    let def = EchoTool.to_def();
    assert_eq!(def.name, "echo");
    assert!(!def.description.is_empty());
    assert!(!def.parameters.is_empty());
}

#[test]
fn the_parameter_is_described() {
    assert_eq!(
        EchoTool.to_def().parameters[0].description,
        "The text to echo back verbatim. Only useful for testing the tool-call pipeline."
    );
}
