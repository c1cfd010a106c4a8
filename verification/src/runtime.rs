use vstd::prelude::*;
use crate::evaluator::{
    arith_spec,
    comparison_spec,
    equality_spec,
    negate_boolean_spec,
    negate_number_spec,
    matches_value,
    EvalError,
    Evaluator,
    Value,
    ValueResult,
    ValueV,
};
use crate::expressions::{is_comparison_op, is_equality_op, ExprV, Expression};
use crate::output::Output;
use crate::tokens::TokenKind;

verus! {

/// Arithmetic operator tokens, the ones routed to the arithmetic computation.
pub open spec fn is_arith_kind(k: TokenKind) -> bool {
    k == TokenKind::Plus || k == TokenKind::Minus || k == TokenKind::Star || k == TokenKind::Slash
}

/// What evaluating an expression tree gives: children are evaluated before
/// the parent combines them, the left operand strictly before the right one,
/// and evaluation stops at the first error. Literals map directly to their
/// value, a group evaluates to its inner expression's value, and operator
/// nodes dispatch on the operator token's kind.
pub open spec fn eval_spec(e: ExprV) -> ValueResult
    decreases e,
{
    match e {
        ExprV::Number(n) => Result::Ok(ValueV::Number(n)),
        ExprV::String(s) => Result::Ok(ValueV::String(s)),
        ExprV::Boolean(b) => Result::Ok(ValueV::Boolean(b)),
        ExprV::Null => Result::Ok(ValueV::Null),
        ExprV::Group(inner) => eval_spec(*inner),
        ExprV::Unary(op, inner) => match eval_spec(*inner) {
            Result::Err(err) => Result::Err(err),
            Result::Ok(v) => if op.kind == TokenKind::Minus {
                negate_number_spec(v)
            } else if op.kind == TokenKind::Bang {
                negate_boolean_spec(v)
            } else {
                Result::Err(EvalError::InvalidUnaryOperation)
            },
        },
        ExprV::Binary(l, op, r) => match eval_spec(*l) {
            Result::Err(err) => Result::Err(err),
            Result::Ok(lv) => match eval_spec(*r) {
                Result::Err(err) => Result::Err(err),
                Result::Ok(rv) => if is_arith_kind(op.kind) {
                    arith_spec(lv, op.kind, rv)
                } else if is_comparison_op(op.kind) {
                    comparison_spec(lv, op.kind, rv)
                } else if is_equality_op(op.kind) {
                    equality_spec(lv, op.kind, rv)
                } else {
                    Result::Err(EvalError::InvalidBinaryOperation)
                },
            },
        },
    }
}

/// Takes a built expression tree and executes its operations.
pub struct Interpreter;

impl Interpreter {
    /// Walks the tree bottom-up, dispatching on the runtime kind of each
    /// operand, and produces a single value or the first typed error.
    pub fn evaluate(expr: Expression) -> (r: Result<Output, EvalError>)
        ensures
            matches_value(r, eval_spec(expr.deep_view())),
        decreases expr,
    {
        match expr {
            Expression::Number(n) => Ok(Output(Value::Number(n))),
            Expression::String(s) => Ok(Output(Value::String(s))),
            Expression::Boolean(b) => Ok(Output(Value::Boolean(b))),
            Expression::Null => Ok(Output(Value::Null)),
            Expression::Group(inner) => Self::evaluate(*inner),
            Expression::Unary(operator, inner) => {
                let value = match Self::evaluate(*inner) {
                    Ok(o) => o.0,
                    Err(err) => {
                        return Err(err);
                    },
                };
                match operator.kind {
                    TokenKind::Minus => Evaluator::negate_number(value),
                    TokenKind::Bang => Evaluator::negate_boolean(value),
                    _ => Err(EvalError::InvalidUnaryOperation),
                }
            },
            Expression::Binary(left, operator, right) => {
                let left_value = match Self::evaluate(*left) {
                    Ok(o) => o.0,
                    Err(err) => {
                        return Err(err);
                    },
                };
                let right_value = match Self::evaluate(*right) {
                    Ok(o) => o.0,
                    Err(err) => {
                        return Err(err);
                    },
                };
                match operator.kind {
                    TokenKind::Plus | TokenKind::Minus | TokenKind::Star | TokenKind::Slash => {
                        Evaluator::compute_arithmetic(left_value, operator, right_value)
                    },
                    TokenKind::Great | TokenKind::GreatEqual | TokenKind::Less
                        | TokenKind::LessEqual => {
                        Evaluator::compute_comparison(left_value, operator, right_value)
                    },
                    TokenKind::DoubleEqual | TokenKind::BangEqual => {
                        Evaluator::compute_equality(left_value, operator, right_value)
                    },
                    _ => Err(EvalError::InvalidBinaryOperation),
                }
            },
        }
    }
}

} // verus!
