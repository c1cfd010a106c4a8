use vstd::prelude::*;

verus! {

/// A parse error collected while building the expression tree.
#[derive(Clone, Debug, PartialEq, Eq)]
pub enum ParseError {
    /// A specific token was required to complete the construct being parsed
    /// (such as the closing parenthesis of a grouping expression) but another
    /// one stood there: the pair holds the expected lexeme and the lexeme
    /// found instead (empty when the input ended first).
    UnexpectedToken(String, String),
    /// The token at the start of an expression position cannot begin any
    /// expression (for example a bare `+`), or the input ended where an
    /// expression was required.
    ExpectedExpression,
}

/// Mathematical model of a `ParseError`.
pub ghost enum ParseErrorV {
    UnexpectedToken(Seq<char>, Seq<char>),
    ExpectedExpression,
}

impl View for ParseError {
    type V = ParseErrorV;

    open spec fn view(&self) -> ParseErrorV {
        match self {
            ParseError::UnexpectedToken(expected, got) => ParseErrorV::UnexpectedToken(
                expected@,
                got@,
            ),
            ParseError::ExpectedExpression => ParseErrorV::ExpectedExpression,
        }
    }
}

impl DeepView for ParseError {
    type V = ParseErrorV;

    open spec fn deep_view(&self) -> ParseErrorV {
        self.view()
    }
}

} // verus!
