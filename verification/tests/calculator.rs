//! The calculator: what it computes, and what it refuses.

use loomis::tools::calculator::{
    Calculation, CalculatorArgs, CalculatorTool, Lexer, Op, ParseError, Parser,
};
use loomis::tools::{ParamType, ToolError};

// ── What the program around the library does ────────────────────────────

fn decode(args: &str) -> Result<CalculatorArgs, String> {
    let value: serde_json::Value = serde_json::from_str(args).map_err(|e| e.to_string())?;
    let object = value.as_object().ok_or("not an object")?;
    for key in object.keys() {
        if key != "expression" {
            return Err(format!("unknown field `{key}`"));
        }
    }
    let expression = object.get("expression").and_then(|v| v.as_str()).ok_or("missing field")?;
    Ok(CalculatorArgs { expression: expression.to_string() })
}

fn compute(calculation: &Calculation) -> Result<f64, ParseError> {
    let mut stack: Vec<f64> = Vec::new();
    for op in &calculation.ops {
        match op {
            Op::Push { number, position } => {
                let n: f64 = number.parse().unwrap();
                if !n.is_finite() {
                    let position = Some(*position);
                    return Err(ParseError { message: "invalid number".to_string(), position });
                }
                stack.push(n);
            }
            Op::Neg => {
                let x = stack.pop().unwrap();
                stack.push(-x);
            }
            _ => {
                let right = stack.pop().unwrap();
                let left = stack.pop().unwrap();
                stack.push(match op {
                    Op::Plus => left + right,
                    Op::Minus => left - right,
                    Op::Times => left * right,
                    _ if right == 0.0 => {
                        let message = "division by zero".to_string();
                        return Err(ParseError { message, position: None });
                    }
                    _ => left / right,
                });
            }
        }
    }
    match &calculation.error {
        Some(e) => Err(e.clone()),
        None => Ok(stack.pop().unwrap()),
    }
}

fn execute(args: &str) -> Result<String, ToolError> {
    let calculation = CalculatorTool.execute_stream(decode(args))?;
    let outcome = compute(&calculation).map(|n| {
        if n == n.trunc() && n.is_finite() {
            format!("{}", n as i64)
        } else {
            format!("{n}")
        }
    });
    CalculatorTool.answer(outcome)
}

fn calc(expr: &str) -> String {
    execute(&format!(r#"{{"expression": "{}"}}"#, expr)).unwrap()
}

fn calc_err(expr: &str) -> ToolError {
    execute(&format!(r#"{{"expression": "{}"}}"#, expr)).unwrap_err()
}

fn failure(expr: &str) -> String {
    match calc_err(expr) {
        ToolError::Execution(m) => m,
        ToolError::InvalidArgs(m) => panic!("{m}"),
    }
}

fn evaluate(input: &str) -> Result<f64, ParseError> {
    compute(&Parser::evaluate(input))
}

// ── The tool ────────────────────────────────────────────────────────────

#[test]
fn calculator_test_name() {
    assert_eq!(CalculatorTool.name(), "calculator");
}

#[test]
fn calculator_test_description() {
    assert!(CalculatorTool.description().contains("mathematical expression"));
}

#[test]
fn calculator_test_parameters_schema() {
    let def = CalculatorTool.to_def();
    assert_eq!(def.name, "calculator");
    assert_eq!(def.parameters.len(), 1);
    assert_eq!(def.parameters[0].name, "expression");
    assert_eq!(def.parameters[0].kind, ParamType::Text);
    assert!(def.parameters[0].required);
}

#[test]
fn test_addition() {
    assert_eq!(calc("2 + 3"), "5");
}

#[test]
fn test_subtraction() {
    assert_eq!(calc("10 - 7"), "3");
}

#[test]
fn test_multiplication() {
    assert_eq!(calc("4 * 5"), "20");
}

#[test]
fn test_division() {
    assert_eq!(calc("15 / 3"), "5");
}

#[test]
fn test_operator_precedence() {
    assert_eq!(calc("2 + 3 * 4"), "14");
}

#[test]
fn test_parentheses() {
    assert_eq!(calc("(2 + 3) * 4"), "20");
}

#[test]
fn test_unary_minus() {
    assert_eq!(calc("-5 + 3"), "-2");
}

#[test]
fn test_unary_plus() {
    assert_eq!(calc("+5 - 2"), "3");
}

#[test]
fn test_decimal() {
    assert_eq!(calc("3.5 + 1.5"), "5");
}

#[test]
fn test_nested_parentheses() {
    assert_eq!(calc("((2 + 3) * (4 - 1)) / 5"), "3");
}

#[test]
fn test_float_result() {
    assert!(calc("10 / 3").starts_with("3.33"));
}

#[test]
fn test_division_by_zero() {
    let err = execute(r#"{"expression": "1 / 0"}"#).unwrap_err();
    assert!(matches!(err, ToolError::Execution(_)));
}

#[test]
fn calculator_test_invalid_json() {
    let err = execute("garbage").unwrap_err();
    assert!(matches!(err, ToolError::InvalidArgs(_)));
}

#[test]
fn test_missing_expression_field() {
    let err = execute(r#"{"wrong": "field"}"#).unwrap_err();
    assert!(matches!(err, ToolError::InvalidArgs(_)));
}

#[test]
fn test_empty_expression() {
    assert!(matches!(calc_err(""), ToolError::Execution(_)));
}

#[test]
fn test_unsupported_operator() {
    assert!(matches!(calc_err("2 ^ 3"), ToolError::Execution(_)));
}

#[test]
fn test_trailing_operator() {
    assert!(matches!(calc_err("2 *"), ToolError::Execution(_)));
}

#[test]
fn test_mismatched_parens() {
    assert!(matches!(calc_err("(2 + 3"), ToolError::Execution(_)));
}

// ── The parser ──────────────────────────────────────────────────────────

#[test]
fn test_parser_simple_addition() {
    assert_eq!(evaluate("1 + 2").unwrap(), 3.0);
}

#[test]
fn test_parser_whitespace_insensitive() {
    assert_eq!(evaluate("  1   +   2  ").unwrap(), 3.0);
}

#[test]
fn test_parser_trailing_garbage() {
    assert!(evaluate("1 + 2 x").is_err());
}

#[test]
fn test_lexer_empty_input() {
    let mut lexer = Lexer::new("");
    assert!(lexer.next_token().is_none());
}

#[test]
fn test_lexer_only_whitespace() {
    let mut lexer = Lexer::new("   \t  ");
    assert!(lexer.next_token().is_none());
}

// ── Precisely ───────────────────────────────────────────────────────────

#[test]
fn operators_of_one_rank_group_from_the_left() {
    assert_eq!(calc("10 - 4 - 3"), "3");
    assert_eq!(calc("100 / 5 / 2"), "10");
    assert_eq!(calc("2 * 3 + 4 * 5"), "26");
}

#[test]
fn signs_stack_up() {
    assert_eq!(calc("--5"), "5");
    assert_eq!(calc("2 * -3"), "-6");
    assert_eq!(calc("-(2 + 3)"), "-5");
}

#[test]
fn failures_say_where_and_why() {
    assert_eq!(failure(""), "at position 0: unexpected end of expression");
    assert_eq!(failure("1 / 0"), "at position 0: division by zero");
    assert!(failure("(2 + 3").ends_with("expected ')'"));
    assert!(failure("2 + )").ends_with("unexpected token"));
    assert!(failure("1 2").ends_with("unexpected token after expression"));
    assert!(failure("2 ^ 3").ends_with("unexpected character after expression"));
    assert!(failure(".").ends_with("invalid number"));
}

#[test]
fn undecoded_arguments_are_named() {
    match CalculatorTool.execute_stream(Err("no such thing".to_string())) {
        Err(ToolError::InvalidArgs(m)) => assert_eq!(m, "invalid args: no such thing"),
        _ => panic!("accepted"),
    }
}

#[test]
fn a_division_by_zero_comes_before_a_later_mistake() {
    assert_eq!(failure("1 / 0 + )"), "at position 0: division by zero");
}

#[test]
fn texts_are_accepted_as_the_grammar_has_it() {
    for text in ["1", "+-1", "(1)", " 1 + 2 * (3 - .5) / -4. ", "((1))*-+-(2)"] {
        assert!(Parser::evaluate(text).error.is_none(), "refused {text:?}");
    }
    for text in ["", ".", "1 +", "* 1", "(1", "1)", "()", "1 2", "1 $", "1 + $", "1..2", "2 ^ 3"] {
        assert!(Parser::evaluate(text).error.is_some(), "accepted {text:?}");
    }
}
