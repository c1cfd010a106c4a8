use fredlang::ast::ParseError;
use fredlang::evaluator::{EvalError, Value};
use fredlang::execute_code;
use fredlang::output::{Output, RenderError};
use fredlang::ExecuteError;

#[test]
/// The factor rule binds tighter than the term rule.
fn execute_respects_precedence() {
    let out = execute_code("2 + 3 * 4").unwrap();

    assert_eq!(out.0, Value::Number(14));
}

#[test]
/// Parentheses override precedence.
fn execute_respects_grouping() {
    let out = execute_code("(2 + 3) * 4").unwrap();

    assert_eq!(out.0, Value::Number(20));
}

#[test]
/// Dividing by zero surfaces the typed evaluation error.
fn execute_division_by_zero() {
    let r = execute_code("10 / 0");

    assert_eq!(r, Err(ExecuteError::Eval(EvalError::CannotDivideByZero)));
}

#[test]
/// A numeric literal written as a digit run evaluates to that number.
fn execute_number_literal_round_trip() {
    let out = execute_code("42").unwrap();

    assert_eq!(out.0, Value::Number(42));
}

#[test]
/// Comparisons and two-character operators work through the whole pipeline.
fn execute_comparison() {
    let out = execute_code("2 + 2 >= 4").unwrap();

    assert_eq!(out.0, Value::Boolean(true));
}

#[test]
/// A unary minus binds to its operand and negates it.
fn execute_unary_minus() {
    let out = execute_code("-5 + 2").unwrap();

    assert_eq!(out.0, Value::Number(-3));
}

#[test]
/// A source whose tokens form no expression reports the parse diagnostics.
fn execute_reports_parse_errors() {
    let r = execute_code("+");

    assert_eq!(
        r,
        Err(ExecuteError::Parse(vec![ParseError::ExpectedExpression]))
    );
}

#[test]
/// A source of only unrecognized characters leaves no tokens, so parsing
/// finds no expression.
fn execute_unknown_character() {
    let r = execute_code("@");

    assert_eq!(
        r,
        Err(ExecuteError::Parse(vec![ParseError::ExpectedExpression]))
    );
}

#[test]
/// A string literal evaluates to its verbatim text.
fn execute_string_literal() {
    let out = execute_code("\"Hello world\"").unwrap();

    assert_eq!(out.0, Value::String("Hello world".to_string()));
}

#[test]
/// Numbers render in decimal, negative ones with a sign.
fn render_numbers() {
    assert_eq!(
        Output(Value::Number(0)).render(),
        Ok("0".to_string())
    );
    assert_eq!(
        Output(Value::Number(1234567890)).render(),
        Ok("1234567890".to_string())
    );
    assert_eq!(
        Output(Value::Number(-42)).render(),
        Ok("-42".to_string())
    );
    assert_eq!(
        Output(Value::Number(i64::MIN)).render(),
        Ok("-9223372036854775808".to_string())
    );
}

#[test]
/// Strings render verbatim and booleans render as their spelling.
fn render_string_and_booleans() {
    assert_eq!(
        Output(Value::String("verbatim text".to_string())).render(),
        Ok("verbatim text".to_string())
    );
    assert_eq!(Output(Value::Boolean(true)).render(), Ok("true".to_string()));
    assert_eq!(
        Output(Value::Boolean(false)).render(),
        Ok("false".to_string())
    );
}

#[test]
/// The unit value has no textual form; rendering it is a typed error, not a
/// process abort.
fn render_null_is_typed_error() {
    assert_eq!(
        Output(Value::Null).render(),
        Err(RenderError::UnprintableValue)
    );
}

#[test]
/// Equality of two computed numbers through the whole pipeline.
fn execute_equality_of_expressions() {
    let out = execute_code("(2 * 3) == (10 - 4)").unwrap();

    assert_eq!(out.0, Value::Boolean(true));
}

#[test]
/// Comments and blank lines contribute no tokens.
fn execute_with_comment_line() {
    let out = execute_code("# doubles the sum\n(1 + 2) * 2").unwrap();

    assert_eq!(out.0, Value::Number(6));
}
