use vstd::prelude::*;
use vstd::arithmetic::div_mod::{
    lemma_div_is_ordered_by_denominator,
    lemma_div_nonincreasing,
    lemma_div_pos_is_pos,
};
use crate::output::Output;
use crate::tokens::{Token, TokenKind};

verus! {

/// The evaluator's runtime representation of a value: a closed tagged union
/// with no implicit coercion between kinds.
#[derive(Clone, Debug, PartialEq)]
pub enum Value {
    /// A number.
    Number(i64),
    /// A text value.
    String(String),
    /// A truth value.
    Boolean(bool),
    /// The unit value.
    Null,
}

/// Mathematical model of a `Value`.
pub ghost enum ValueV {
    Number(i64),
    String(Seq<char>),
    Boolean(bool),
    Null,
}

impl View for Value {
    type V = ValueV;

    open spec fn view(&self) -> ValueV {
        match self {
            Value::Number(n) => ValueV::Number(*n),
            Value::String(s) => ValueV::String(s@),
            Value::Boolean(b) => ValueV::Boolean(*b),
            Value::Null => ValueV::Null,
        }
    }
}

/// A typed evaluation error; evaluation halts on the first one.
#[derive(Clone, Copy, Debug, PartialEq, Eq, Structural)]
pub enum EvalError {
    /// An operand of a numeric operation is not a number.
    CannotEvaluateAsNumber,
    /// The operand of a boolean negation is not a boolean.
    CannotEvaluateAsBoolean,
    /// The right operand of a division is exactly zero.
    CannotDivideByZero,
    /// The exact result of a numeric operation does not fit the number type.
    NumberOverflow,
    /// A token that is not an arithmetic operator reached the arithmetic
    /// computation; unreachable through a correctly constructed tree.
    InvalidArithmeticOperation,
    /// A token that is not a comparison operator reached the comparison
    /// computation; unreachable through a correctly constructed tree.
    InvalidComparisonOperation,
    /// A token that is not an equality operator reached the equality
    /// computation; unreachable through a correctly constructed tree.
    InvalidEqualityOperation,
    /// A unary expression whose operator token is neither `-` nor `!`.
    InvalidUnaryOperation,
    /// A binary expression whose operator token belongs to no operator rule.
    InvalidBinaryOperation,
}

/// A computation's outcome, stated over value models.
pub type ValueResult = Result<ValueV, EvalError>;

/// Relates an executable outcome to the outcome a spec function gives.
pub open spec fn matches_value(r: Result<Output, EvalError>, expected: ValueResult) -> bool {
    match r {
        Result::Ok(o) => expected == Result::<ValueV, EvalError>::Ok(o.0@),
        Result::Err(e) => expected == Result::<ValueV, EvalError>::Err(e),
    }
}

/// Negating a number: the operand must be a number whose negation fits.
pub open spec fn negate_number_spec(v: ValueV) -> ValueResult {
    match v {
        ValueV::Number(n) => if n == i64::MIN {
            Result::Err(EvalError::NumberOverflow)
        } else {
            Result::Ok(ValueV::Number((-n) as i64))
        },
        _ => Result::Err(EvalError::CannotEvaluateAsNumber),
    }
}

/// Negating a boolean: the operand must be a boolean.
pub open spec fn negate_boolean_spec(v: ValueV) -> ValueResult {
    match v {
        ValueV::Boolean(b) => Result::Ok(ValueV::Boolean(!b)),
        _ => Result::Err(EvalError::CannotEvaluateAsBoolean),
    }
}

/// Division truncating toward zero, as the machine division does.
pub open spec fn div_trunc(x: int, d: int) -> int
    recommends
        d != 0,
{
    if x == 0 {
        0
    } else if x > 0 && d > 0 {
        x / d
    } else if x < 0 && d < 0 {
        (x * -1) / (d * -1)
    } else if x < 0 {
        ((x * -1) / d) * -1
    } else {
        (x / (d * -1)) * -1
    }
}

/// Outside division by zero and the one overflowing quotient, a truncating
/// division of representable numbers is representable.
pub proof fn lemma_div_trunc_range(x: int, d: int)
    requires
        i64::MIN <= x <= i64::MAX,
        i64::MIN <= d <= i64::MAX,
        d != 0,
        !(x == i64::MIN && d == -1),
    ensures
        i64::MIN <= div_trunc(x, d) <= i64::MAX,
{
    if x > 0 && d > 0 {
        lemma_div_pos_is_pos(x, d);
        lemma_div_nonincreasing(x, d);
    } else if x < 0 && d < 0 {
        lemma_div_pos_is_pos(x * -1, d * -1);
        lemma_div_nonincreasing(x * -1, d * -1);
        if x == i64::MIN {
            lemma_div_is_ordered_by_denominator(x * -1, 2, d * -1);
        }
    } else if x < 0 {
        lemma_div_pos_is_pos(x * -1, d);
        lemma_div_nonincreasing(x * -1, d);
    } else if x > 0 {
        lemma_div_pos_is_pos(x, d * -1);
        lemma_div_nonincreasing(x, d * -1);
    }
}

/// The arithmetic rules: both operands must be numbers; `+`, `-` and `*`
/// give the exact result when it is representable and fail with
/// `NumberOverflow` otherwise; `/` first fails on a zero right operand, then
/// truncates toward zero; any other operator token is invalid here.
pub open spec fn arith_spec(l: ValueV, op: TokenKind, r: ValueV) -> ValueResult {
    match l {
        ValueV::Number(a) => match r {
            ValueV::Number(b) => if op == TokenKind::Plus {
                if a + b > i64::MAX || a + b < i64::MIN {
                    Result::Err(EvalError::NumberOverflow)
                } else {
                    Result::Ok(ValueV::Number((a + b) as i64))
                }
            } else if op == TokenKind::Minus {
                if a - b > i64::MAX || a - b < i64::MIN {
                    Result::Err(EvalError::NumberOverflow)
                } else {
                    Result::Ok(ValueV::Number((a - b) as i64))
                }
            } else if op == TokenKind::Star {
                if a * b > i64::MAX || a * b < i64::MIN {
                    Result::Err(EvalError::NumberOverflow)
                } else {
                    Result::Ok(ValueV::Number((a * b) as i64))
                }
            } else if op == TokenKind::Slash {
                if b == 0 {
                    Result::Err(EvalError::CannotDivideByZero)
                } else if a == i64::MIN && b == -1 {
                    Result::Err(EvalError::NumberOverflow)
                } else {
                    Result::Ok(ValueV::Number(div_trunc(a as int, b as int) as i64))
                }
            } else {
                Result::Err(EvalError::InvalidArithmeticOperation)
            },
            _ => Result::Err(EvalError::CannotEvaluateAsNumber),
        },
        _ => Result::Err(EvalError::CannotEvaluateAsNumber),
    }
}

/// The comparison rules: both operands must be numbers and the result is the
/// boolean the operator names; any other operator token is invalid here.
pub open spec fn comparison_spec(l: ValueV, op: TokenKind, r: ValueV) -> ValueResult {
    match l {
        ValueV::Number(a) => match r {
            ValueV::Number(b) => if op == TokenKind::Great {
                Result::Ok(ValueV::Boolean(a > b))
            } else if op == TokenKind::GreatEqual {
                Result::Ok(ValueV::Boolean(a >= b))
            } else if op == TokenKind::Less {
                Result::Ok(ValueV::Boolean(a < b))
            } else if op == TokenKind::LessEqual {
                Result::Ok(ValueV::Boolean(a <= b))
            } else {
                Result::Err(EvalError::InvalidComparisonOperation)
            },
            _ => Result::Err(EvalError::CannotEvaluateAsNumber),
        },
        _ => Result::Err(EvalError::CannotEvaluateAsNumber),
    }
}

/// The equality rules: both operands must be numbers and the result says
/// whether they are equal; any other operator token is invalid here.
pub open spec fn equality_spec(l: ValueV, op: TokenKind, r: ValueV) -> ValueResult {
    match l {
        ValueV::Number(a) => match r {
            ValueV::Number(b) => if op == TokenKind::DoubleEqual {
                Result::Ok(ValueV::Boolean(a == b))
            } else if op == TokenKind::BangEqual {
                Result::Ok(ValueV::Boolean(a != b))
            } else {
                Result::Err(EvalError::InvalidEqualityOperation)
            },
            _ => Result::Err(EvalError::CannotEvaluateAsNumber),
        },
        _ => Result::Err(EvalError::CannotEvaluateAsNumber),
    }
}

/// Performs the dynamically dispatched value operations, one operator
/// family per function.
pub struct Evaluator;

impl Evaluator {
    /// Requires the given value to be a number and returns its negation.
    pub fn negate_number(value: Value) -> (r: Result<Output, EvalError>)
        ensures
            matches_value(r, negate_number_spec(value@)),
    {
        match value {
            Value::Number(n) => if n == i64::MIN {
                Err(EvalError::NumberOverflow)
            } else {
                Ok(Output(Value::Number(-n)))
            },
            _ => Err(EvalError::CannotEvaluateAsNumber),
        }
    }

    /// Requires the given value to be a boolean and returns its negation.
    pub fn negate_boolean(value: Value) -> (r: Result<Output, EvalError>)
        ensures
            matches_value(r, negate_boolean_spec(value@)),
    {
        match value {
            Value::Boolean(b) => Ok(Output(Value::Boolean(!b))),
            _ => Err(EvalError::CannotEvaluateAsBoolean),
        }
    }

    /// Requires both values to be numbers and performs the arithmetic
    /// operation the given token names.
    pub fn compute_arithmetic(
        left_value: Value,
        arithmetic_operator: Token,
        right_value: Value,
    ) -> (r: Result<Output, EvalError>)
        ensures
            matches_value(r, arith_spec(left_value@, arithmetic_operator.kind, right_value@)),
    {
        let a = match left_value {
            Value::Number(n) => n,
            _ => {
                return Err(EvalError::CannotEvaluateAsNumber);
            },
        };
        let b = match right_value {
            Value::Number(n) => n,
            _ => {
                return Err(EvalError::CannotEvaluateAsNumber);
            },
        };
        match arithmetic_operator.kind {
            TokenKind::Plus => match a.checked_add(b) {
                Some(x) => Ok(Output(Value::Number(x))),
                None => Err(EvalError::NumberOverflow),
            },
            TokenKind::Minus => match a.checked_sub(b) {
                Some(x) => Ok(Output(Value::Number(x))),
                None => Err(EvalError::NumberOverflow),
            },
            TokenKind::Star => match a.checked_mul(b) {
                Some(x) => Ok(Output(Value::Number(x))),
                None => Err(EvalError::NumberOverflow),
            },
            TokenKind::Slash => {
                if b == 0 {
                    return Err(EvalError::CannotDivideByZero);
                }
                if a == i64::MIN && b == -1 {
                    return Err(EvalError::NumberOverflow);
                }
                proof {
                    lemma_div_trunc_range(a as int, b as int);
                }
                match a.checked_div(b) {
                    Some(q) => Ok(Output(Value::Number(q))),
                    None => Err(EvalError::NumberOverflow),
                }
            },
            _ => Err(EvalError::InvalidArithmeticOperation),
        }
    }

    /// Requires both values to be numbers and performs the comparison
    /// operation the given token names.
    pub fn compute_comparison(
        left_value: Value,
        comparison_operator: Token,
        right_value: Value,
    ) -> (r: Result<Output, EvalError>)
        ensures
            matches_value(r, comparison_spec(left_value@, comparison_operator.kind, right_value@)),
    {
        let a = match left_value {
            Value::Number(n) => n,
            _ => {
                return Err(EvalError::CannotEvaluateAsNumber);
            },
        };
        let b = match right_value {
            Value::Number(n) => n,
            _ => {
                return Err(EvalError::CannotEvaluateAsNumber);
            },
        };
        match comparison_operator.kind {
            TokenKind::Great => Ok(Output(Value::Boolean(a > b))),
            TokenKind::GreatEqual => Ok(Output(Value::Boolean(a >= b))),
            TokenKind::Less => Ok(Output(Value::Boolean(a < b))),
            TokenKind::LessEqual => Ok(Output(Value::Boolean(a <= b))),
            _ => Err(EvalError::InvalidComparisonOperation),
        }
    }

    /// Requires both values to be numbers and performs the equality
    /// operation the given token names.
    pub fn compute_equality(
        left_value: Value,
        equality_operator: Token,
        right_value: Value,
    ) -> (r: Result<Output, EvalError>)
        ensures
            matches_value(r, equality_spec(left_value@, equality_operator.kind, right_value@)),
    {
        let a = match left_value {
            Value::Number(n) => n,
            _ => {
                return Err(EvalError::CannotEvaluateAsNumber);
            },
        };
        let b = match right_value {
            Value::Number(n) => n,
            _ => {
                return Err(EvalError::CannotEvaluateAsNumber);
            },
        };
        match equality_operator.kind {
            TokenKind::DoubleEqual => Ok(Output(Value::Boolean(a == b))),
            TokenKind::BangEqual => Ok(Output(Value::Boolean(a != b))),
            _ => Err(EvalError::InvalidEqualityOperation),
        }
    }
}

} // verus!
