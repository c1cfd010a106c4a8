use vstd::prelude::*;
use vstd::string::StringExecFns;
use crate::evaluator::{Value, ValueV};

verus! {

/// Rendering a value can fail only one way: the value has no textual form.
#[derive(Clone, Copy, Debug, PartialEq, Eq, Structural)]
pub enum RenderError {
    /// The value's kind has no textual rendering.
    UnprintableValue,
}

/// The character of a decimal digit.
pub open spec fn digit_char(d: int) -> char
    recommends
        0 <= d <= 9,
{
    if d == 0 {
        '0'
    } else if d == 1 {
        '1'
    } else if d == 2 {
        '2'
    } else if d == 3 {
        '3'
    } else if d == 4 {
        '4'
    } else if d == 5 {
        '5'
    } else if d == 6 {
        '6'
    } else if d == 7 {
        '7'
    } else if d == 8 {
        '8'
    } else {
        '9'
    }
}

/// The decimal rendering of a non-negative number, most significant digit
/// first, with no leading zeros.
pub open spec fn dec_digits(n: int) -> Seq<char>
    recommends
        n >= 0,
    decreases n,
{
    if n < 10 {
        seq![digit_char(n)]
    } else {
        dec_digits(n / 10).push(digit_char(n % 10))
    }
}

/// The decimal rendering of a number: a `-` sign when it is negative,
/// followed by the digits of its magnitude.
pub open spec fn render_int(n: int) -> Seq<char> {
    if n < 0 {
        seq!['-'] + dec_digits(-n)
    } else {
        dec_digits(n)
    }
}

/// Whether a value has a textual form: numbers, strings and booleans do.
pub open spec fn value_printable(v: ValueV) -> bool {
    !(v is Null)
}

/// The textual form of a printable value: a number renders in decimal, a
/// string renders verbatim, a boolean renders as `true` or `false`.
pub open spec fn value_text(v: ValueV) -> Seq<char>
    recommends
        value_printable(v),
{
    match v {
        ValueV::Number(n) => render_int(n as int),
        ValueV::String(s) => s,
        ValueV::Boolean(b) => if b {
            "true"@
        } else {
            "false"@
        },
        ValueV::Null => Seq::empty(),
    }
}

/// One decimal digit as text.
fn digit_str(d: u64) -> (r: &'static str)
    requires
        d < 10,
    ensures
        r@ == seq![digit_char(d as int)],
{
    let r: &'static str = if d == 0 {
        "0"
    } else if d == 1 {
        "1"
    } else if d == 2 {
        "2"
    } else if d == 3 {
        "3"
    } else if d == 4 {
        "4"
    } else if d == 5 {
        "5"
    } else if d == 6 {
        "6"
    } else if d == 7 {
        "7"
    } else if d == 8 {
        "8"
    } else {
        "9"
    };
    proof {
        reveal_strlit("0");
        reveal_strlit("1");
        reveal_strlit("2");
        reveal_strlit("3");
        reveal_strlit("4");
        reveal_strlit("5");
        reveal_strlit("6");
        reveal_strlit("7");
        reveal_strlit("8");
        reveal_strlit("9");
        assert(r@ =~= seq![digit_char(d as int)]);
    }
    r
}

/// Renders a non-negative number in decimal.
fn render_u64(n: u64) -> (s: String)
    ensures
        s@ == dec_digits(n as int),
    decreases n,
{
    if n < 10 {
        String::from_str(digit_str(n))
    } else {
        let mut s = render_u64(n / 10);
        s.append(digit_str(n % 10));
        proof {
            assert(s@ =~= dec_digits((n / 10) as int).push(digit_char((n % 10) as int)));
        }
        s
    }
}

/// Wraps an evaluation result value for display and further use.
#[derive(Debug, PartialEq)]
pub struct Output(pub Value);

impl Output {
    /// Renders the wrapped value textually per kind; a value without a
    /// textual form is reported as a typed error instead of ending the
    /// process.
    pub fn render(&self) -> (r: Result<String, RenderError>)
        ensures
            match r {
                Result::Ok(s) => value_printable(self.0@) && s@ == value_text(self.0@),
                Result::Err(e) => !value_printable(self.0@) && e == RenderError::UnprintableValue,
            },
    {
        match &self.0 {
            Value::Number(n) => {
                let n = *n;
                if n < 0 {
                    let mut s = String::from_str("-");
                    let m: u64 = (-(n as i128)) as u64;
                    let digits = render_u64(m);
                    s.append(digits.as_str());
                    proof {
                        reveal_strlit("-");
                        assert(s@ =~= seq!['-'] + dec_digits(m as int));
                    }
                    Ok(s)
                } else {
                    Ok(render_u64(n as u64))
                }
            },
            Value::String(s) => Ok(s.clone()),
            Value::Boolean(b) => if *b {
                Ok(String::from_str("true"))
            } else {
                Ok(String::from_str("false"))
            },
            Value::Null => Err(RenderError::UnprintableValue),
        }
    }
}

} // verus!
