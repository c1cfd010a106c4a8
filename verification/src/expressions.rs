use vstd::prelude::*;
use vstd::string::StrSliceExecFns;
use vstd::string::StringExecFns;
use crate::ast::{ParseError, ParseErrorV};
use crate::multipeek::Multipeek;
use crate::scanner::{
    digit_run_end,
    ident_run_end,
    is_alpha_char,
    is_blank_char,
    is_digit_char,
    lemma_digit_run_end,
    lemma_ident_run_end,
    lemma_line_end,
    lemma_string_body_end,
    line_end,
    pair_op_kind,
    punct_kind,
    scan_from,
    single_op_kind,
    string_body_end,
    with_error,
    with_token,
    ScanOut,
};
use crate::tokens::{Token, TokenKind, TokenV};

verus! {

/// An expression tree node. Non-leaf nodes exclusively own their children;
/// the tree is built once by the parser and only read afterwards.
#[derive(Debug, PartialEq)]
pub enum Expression {
    /// A prefix operator applied to an operand.
    Unary(Token, Box<Expression>),
    /// A left operand, an infix operator, and a right operand.
    Binary(Box<Expression>, Token, Box<Expression>),
    /// A parenthesized expression.
    Group(Box<Expression>),
    /// The unit value.
    Null,
    /// A numeric literal.
    Number(i64),
    /// A string literal.
    String(String),
    /// A boolean literal.
    Boolean(bool),
}

/// Mathematical model of an `Expression`.
pub ghost enum ExprV {
    Unary(TokenV, Box<ExprV>),
    Binary(Box<ExprV>, TokenV, Box<ExprV>),
    Group(Box<ExprV>),
    Null,
    Number(i64),
    String(Seq<char>),
    Boolean(bool),
}

/// The model of an expression tree, node for node.
pub open spec fn expr_view(e: Expression) -> ExprV
    decreases e,
{
    match e {
        Expression::Unary(op, inner) => ExprV::Unary(op@, Box::new(expr_view(*inner))),
        Expression::Binary(l, op, r) => ExprV::Binary(
            Box::new(expr_view(*l)),
            op@,
            Box::new(expr_view(*r)),
        ),
        Expression::Group(inner) => ExprV::Group(Box::new(expr_view(*inner))),
        Expression::Null => ExprV::Null,
        Expression::Number(n) => ExprV::Number(n),
        Expression::String(s) => ExprV::String(s@),
        Expression::Boolean(b) => ExprV::Boolean(b),
    }
}

impl DeepView for Expression {
    type V = ExprV;

    open spec fn deep_view(&self) -> ExprV {
        expr_view(*self)
    }
}

impl Expression {
    /// Moves the expression to the heap.
    pub fn as_box(self) -> (b: Box<Self>)
        ensures
            *b == self,
    {
        Box::new(self)
    }
}

/// Numeric value of a decimal digit character.
pub open spec fn digit_val(c: char) -> int
    recommends
        is_digit_char(c),
{
    (c as u32) - ('0' as u32)
}

/// The numeric value of a digit run, reading left to right; a run whose value
/// does not fit the number type stays put at its largest value.
pub open spec fn lexeme_number(s: Seq<char>) -> i64
    decreases s.len(),
{
    if s.len() == 0 {
        0i64
    } else {
        let prefix = lexeme_number(s.drop_last()) as int;
        let v = 10 * prefix + digit_val(s.last());
        if v > i64::MAX {
            i64::MAX
        } else {
            v as i64
        }
    }
}

/// Reads the decimal value of a digit run, saturating at the largest
/// representable number.
fn number_value(lex: &str) -> (n: i64)
    requires
        forall|j: int| 0 <= j < lex@.len() ==> is_digit_char(#[trigger] lex@[j]),
    ensures
        n == lexeme_number(lex@),
{
    let len = lex.unicode_len();
    let mut i: usize = 0;
    let mut acc: i64 = 0;
    while i < len
        invariant
            i <= len,
            len == lex@.len(),
            forall|j: int| 0 <= j < lex@.len() ==> is_digit_char(#[trigger] lex@[j]),
            acc == lexeme_number(lex@.take(i as int)),
            acc >= 0,
        decreases len - i,
    {
        let c = lex.get_char(i);
        let d = ((c as u32) - ('0' as u32)) as i64;
        acc = match acc.checked_mul(10) {
            Some(x) => match x.checked_add(d) {
                Some(y) => y,
                None => i64::MAX,
            },
            None => i64::MAX,
        };
        i = i + 1;
        proof {
            assert(lex@.take(i as int).drop_last() =~= lex@.take(i - 1));
            assert(lex@.take(i as int).last() == lex@[i - 1]);
        }
    }
    proof {
        assert(lex@.take(len as int) =~= lex@);
    }
    acc
}

/// A well-formed token carries a lexeme that matches its kind: a number
/// token's lexeme is a nonempty digit run. The lexer only produces
/// well-formed tokens.
pub open spec fn wf_token(t: TokenV) -> bool {
    t.kind == TokenKind::Number ==> t.lexeme.len() > 0 && (forall|j: int|
        0 <= j < t.lexeme.len() ==> is_digit_char(#[trigger] t.lexeme[j]))
}

pub open spec fn wf_tokens(ts: Seq<TokenV>) -> bool {
    forall|i: int| 0 <= i < ts.len() ==> wf_token(#[trigger] ts[i])
}

pub proof fn lemma_wf_tokens_skip(ts: Seq<TokenV>, k: int)
    requires
        wf_tokens(ts),
        0 <= k <= ts.len(),
    ensures
        wf_tokens(ts.skip(k)),
{
    assert forall|i: int| 0 <= i < ts.skip(k).len() implies wf_token(#[trigger] ts.skip(k)[i]) by {
        assert(ts.skip(k)[i] == ts[k + i]);
    }
}

/// A token in front keeps a sequence well-formed when both are.
proof fn proof_wf_cons(t: TokenV, ts: Seq<TokenV>)
    requires
        wf_token(t),
        wf_tokens(ts),
    ensures
        wf_tokens(seq![t] + ts),
{
    assert forall|i: int| 0 <= i < (seq![t] + ts).len() implies wf_token(
        #[trigger] (seq![t] + ts)[i],
    ) by {
        if i > 0 {
            assert((seq![t] + ts)[i] == ts[i - 1]);
        }
    }
}

/// The lexer only produces well-formed tokens: every number token it emits
/// carries a nonempty digit run as its lexeme.
pub proof fn lemma_scan_wf(s: Seq<char>, i: int, line: u32)
    requires
        0 <= i <= s.len(),
    ensures
        wf_tokens(scan_from(s, i, line).tokens),
    decreases s.len() - i,
{
    if i < s.len() {
        let c = s[i];
        lemma_line_end(s, i + 1);
        lemma_string_body_end(s, i + 1);
        lemma_digit_run_end(s, i + 1);
        lemma_ident_run_end(s, i + 1);
        if c == '\n' {
            lemma_scan_wf(s, i + 1, crate::scanner::bumped(line));
        } else if is_blank_char(c) {
            lemma_scan_wf(s, i + 1, line);
        } else if c == '#' {
            lemma_scan_wf(s, line_end(s, i + 1), line);
        } else if single_op_kind(c) is Some {
            if i + 1 < s.len() && s[i + 1] == '=' {
                lemma_scan_wf(s, i + 2, line);
                proof_wf_cons(
                    TokenV { kind: pair_op_kind(c)->Some_0, lexeme: s.subrange(i, i + 2), line },
                    scan_from(s, i + 2, line).tokens,
                );
            } else {
                lemma_scan_wf(s, i + 1, line);
                proof_wf_cons(
                    TokenV { kind: single_op_kind(c)->Some_0, lexeme: s.subrange(i, i + 1), line },
                    scan_from(s, i + 1, line).tokens,
                );
            }
        } else if punct_kind(c) is Some {
            lemma_scan_wf(s, i + 1, line);
            proof_wf_cons(
                TokenV { kind: punct_kind(c)->Some_0, lexeme: s.subrange(i, i + 1), line },
                scan_from(s, i + 1, line).tokens,
            );
        } else if c == '"' {
            let close = string_body_end(s, i + 1);
            let next = if close < s.len() {
                close + 1
            } else {
                close
            };
            lemma_scan_wf(s, next, line);
            proof_wf_cons(
                TokenV { kind: TokenKind::String, lexeme: s.subrange(i + 1, close), line },
                scan_from(s, next, line).tokens,
            );
        } else if is_digit_char(c) {
            let end = digit_run_end(s, i + 1);
            let lexeme = s.subrange(i, end);
            lemma_scan_wf(s, end, line);
            assert forall|j: int| 0 <= j < lexeme.len() implies is_digit_char(
                #[trigger] lexeme[j],
            ) by {
                assert(lexeme[j] == s[i + j]);
            }
            proof_wf_cons(
                TokenV { kind: TokenKind::Number, lexeme, line },
                scan_from(s, end, line).tokens,
            );
        } else if is_alpha_char(c) {
            let end = ident_run_end(s, i + 1);
            let lexeme = s.subrange(i, end);
            lemma_scan_wf(s, end, line);
            proof_wf_cons(
                TokenV { kind: crate::scanner::keyword_kind(lexeme), lexeme, line },
                scan_from(s, end, line).tokens,
            );
        } else {
            let end = line_end(s, i + 1);
            lemma_scan_wf(s, end, line);
        }
    }
}

/// The views of a token sequence.
pub open spec fn views_of(ts: Seq<Token>) -> Seq<TokenV> {
    ts.map_values(|t: Token| t@)
}

/// What one parsing rule produces: the expression (or nothing when the rule
/// failed), the tokens it left unconsumed, and the parse errors it collected.
pub ghost struct ParseOut {
    pub expr: Option<ExprV>,
    pub rest: Seq<TokenV>,
    pub errs: Seq<ParseErrorV>,
}

/// Operators of the equality rule.
pub open spec fn is_equality_op(k: TokenKind) -> bool {
    k == TokenKind::DoubleEqual || k == TokenKind::BangEqual
}

/// Operators of the comparison rule.
pub open spec fn is_comparison_op(k: TokenKind) -> bool {
    k == TokenKind::Great || k == TokenKind::GreatEqual || k == TokenKind::Less || k
        == TokenKind::LessEqual
}

/// Operators of the term rule.
pub open spec fn is_term_op(k: TokenKind) -> bool {
    k == TokenKind::Plus || k == TokenKind::Minus
}

/// Operators of the factor rule.
pub open spec fn is_factor_op(k: TokenKind) -> bool {
    k == TokenKind::Star || k == TokenKind::Slash
}

/// Prefix operators of the unary rule.
pub open spec fn is_unary_op(k: TokenKind) -> bool {
    k == TokenKind::Bang || k == TokenKind::Minus
}

/// Builds one binary node out of an already parsed left operand, the operator
/// token standing next, and the outcome of parsing the right operand at the
/// same precedence level; a failed right operand propagates failure, and the
/// errors of both sides are kept in order.
pub open spec fn binary_step(left: ParseOut, op: TokenV, right: ParseOut) -> ParseOut
    recommends
        left.expr is Some,
{
    match left.expr {
        Option::None => left,
        Option::Some(l) => match right.expr {
            Option::None => ParseOut {
                expr: Option::None,
                rest: right.rest,
                errs: left.errs + right.errs,
            },
            Option::Some(r) => ParseOut {
                expr: Option::Some(ExprV::Binary(Box::new(l), op, Box::new(r))),
                rest: right.rest,
                errs: left.errs + right.errs,
            },
        },
    }
}

/// equality -> comparison (("==" | "!=") comparison)?
///
/// Each binary rule first parses the next-higher-precedence rule for the left
/// operand, then consumes one matching operator token (when one stands next)
/// and one right operand at the same precedence level. The length test on the
/// leftover tokens is always true (no rule invents tokens, as
/// `lemma_parse_rest` shows); it stands in the condition so that the mutual
/// recursion is visibly well-founded.
pub open spec fn parse_equality_spec(toks: Seq<TokenV>) -> ParseOut
    decreases toks.len(), 5int,
{
    let left = parse_comparison_spec(toks);
    if left.expr is Some && left.rest.len() > 0 && is_equality_op(left.rest[0].kind)
        && left.rest.len() <= toks.len() {
        binary_step(left, left.rest[0], parse_comparison_spec(left.rest.drop_first()))
    } else {
        left
    }
}

/// comparison -> term ((">" | ">=" | "<" | "<=") term)?
pub open spec fn parse_comparison_spec(toks: Seq<TokenV>) -> ParseOut
    decreases toks.len(), 4int,
{
    let left = parse_term_spec(toks);
    if left.expr is Some && left.rest.len() > 0 && is_comparison_op(left.rest[0].kind)
        && left.rest.len() <= toks.len() {
        binary_step(left, left.rest[0], parse_term_spec(left.rest.drop_first()))
    } else {
        left
    }
}

/// term -> factor (("+" | "-") factor)?
pub open spec fn parse_term_spec(toks: Seq<TokenV>) -> ParseOut
    decreases toks.len(), 3int,
{
    let left = parse_factor_spec(toks);
    if left.expr is Some && left.rest.len() > 0 && is_term_op(left.rest[0].kind) && left.rest.len()
        <= toks.len() {
        binary_step(left, left.rest[0], parse_factor_spec(left.rest.drop_first()))
    } else {
        left
    }
}

/// factor -> unary (("*" | "/") unary)?
pub open spec fn parse_factor_spec(toks: Seq<TokenV>) -> ParseOut
    decreases toks.len(), 2int,
{
    let left = parse_unary_spec(toks);
    if left.expr is Some && left.rest.len() > 0 && is_factor_op(left.rest[0].kind)
        && left.rest.len() <= toks.len() {
        binary_step(left, left.rest[0], parse_unary_spec(left.rest.drop_first()))
    } else {
        left
    }
}

/// unary -> ("!" | "-") unary | primary
pub open spec fn parse_unary_spec(toks: Seq<TokenV>) -> ParseOut
    decreases toks.len(), 1int,
{
    if toks.len() > 0 && is_unary_op(toks[0].kind) {
        let inner = parse_unary_spec(toks.drop_first());
        match inner.expr {
            Option::None => inner,
            Option::Some(e) => ParseOut {
                expr: Option::Some(ExprV::Unary(toks[0], Box::new(e))),
                rest: inner.rest,
                errs: inner.errs,
            },
        }
    } else {
        parse_primary_spec(toks)
    }
}

/// primary -> NUMBER | STRING | "true" | "false" | "null" | "(" expression ")"
///
/// A literal token maps directly to its expression; `(` recurses into the
/// expression rule and then requires a matching `)`, recording an
/// `UnexpectedToken` error (but still building the group) when the token
/// standing there differs or the input ended; any other token cannot start an
/// expression and yields an `ExpectedExpression` error with no expression.
pub open spec fn parse_primary_spec(toks: Seq<TokenV>) -> ParseOut
    decreases toks.len(), 0int,
{
    if toks.len() == 0 {
        ParseOut {
            expr: Option::None,
            rest: toks,
            errs: seq![ParseErrorV::ExpectedExpression],
        }
    } else {
        let t = toks[0];
        let rest = toks.drop_first();
        if t.kind == TokenKind::Number {
            ParseOut {
                expr: Option::Some(ExprV::Number(lexeme_number(t.lexeme))),
                rest,
                errs: seq![],
            }
        } else if t.kind == TokenKind::String {
            ParseOut { expr: Option::Some(ExprV::String(t.lexeme)), rest, errs: seq![] }
        } else if t.kind == TokenKind::True {
            ParseOut { expr: Option::Some(ExprV::Boolean(true)), rest, errs: seq![] }
        } else if t.kind == TokenKind::False {
            ParseOut { expr: Option::Some(ExprV::Boolean(false)), rest, errs: seq![] }
        } else if t.kind == TokenKind::Null {
            ParseOut { expr: Option::Some(ExprV::Null), rest, errs: seq![] }
        } else if t.kind == TokenKind::LeftParentheses {
            let inner = parse_expression_spec(rest);
            match inner.expr {
                Option::None => ParseOut {
                    expr: Option::None,
                    rest: inner.rest,
                    errs: inner.errs,
                },
                Option::Some(e) => {
                    let group = ExprV::Group(Box::new(e));
                    if inner.rest.len() == 0 {
                        ParseOut {
                            expr: Option::Some(group),
                            rest: inner.rest,
                            errs: inner.errs.push(
                                ParseErrorV::UnexpectedToken(")"@, Seq::empty()),
                            ),
                        }
                    } else if inner.rest[0].kind == TokenKind::RightParentheses {
                        ParseOut {
                            expr: Option::Some(group),
                            rest: inner.rest.drop_first(),
                            errs: inner.errs,
                        }
                    } else {
                        ParseOut {
                            expr: Option::Some(group),
                            rest: inner.rest.drop_first(),
                            errs: inner.errs.push(
                                ParseErrorV::UnexpectedToken(")"@, inner.rest[0].lexeme),
                            ),
                        }
                    }
                },
            }
        } else {
            ParseOut {
                expr: Option::None,
                rest,
                errs: seq![ParseErrorV::ExpectedExpression],
            }
        }
    }
}

/// expression -> equality
pub open spec fn parse_expression_spec(toks: Seq<TokenV>) -> ParseOut
    decreases toks.len(), 6int,
{
    parse_equality_spec(toks)
}

/// No parsing rule invents tokens: what it leaves is never longer than what
/// it was given, and stays well-formed when the input was.
pub proof fn lemma_parse_rest(toks: Seq<TokenV>, rank: int)
    requires
        0 <= rank <= 6,
    ensures
        rank == 0 ==> parse_primary_spec(toks).rest.len() <= toks.len() && (wf_tokens(toks)
            ==> wf_tokens(parse_primary_spec(toks).rest)),
        rank == 1 ==> parse_unary_spec(toks).rest.len() <= toks.len() && (wf_tokens(toks)
            ==> wf_tokens(parse_unary_spec(toks).rest)),
        rank == 2 ==> parse_factor_spec(toks).rest.len() <= toks.len() && (wf_tokens(toks)
            ==> wf_tokens(parse_factor_spec(toks).rest)),
        rank == 3 ==> parse_term_spec(toks).rest.len() <= toks.len() && (wf_tokens(toks)
            ==> wf_tokens(parse_term_spec(toks).rest)),
        rank == 4 ==> parse_comparison_spec(toks).rest.len() <= toks.len() && (wf_tokens(toks)
            ==> wf_tokens(parse_comparison_spec(toks).rest)),
        rank == 5 ==> parse_equality_spec(toks).rest.len() <= toks.len() && (wf_tokens(toks)
            ==> wf_tokens(parse_equality_spec(toks).rest)),
        rank == 6 ==> parse_expression_spec(toks).rest.len() <= toks.len() && (wf_tokens(toks)
            ==> wf_tokens(parse_expression_spec(toks).rest)),
    decreases toks.len(), rank,
{
    if rank == 0 {
        if toks.len() > 0 && toks[0].kind == TokenKind::LeftParentheses {
            let rest = toks.drop_first();
            proof_wf_drop_first(toks);
            lemma_parse_rest(rest, 6);
        } else if toks.len() > 0 {
            proof_wf_drop_first(toks);
        }
    } else if rank == 1 {
        if toks.len() > 0 && is_unary_op(toks[0].kind) {
            proof_wf_drop_first(toks);
            lemma_parse_rest(toks.drop_first(), 1);
        } else {
            lemma_parse_rest(toks, 0);
        }
    } else if rank == 6 {
        lemma_parse_rest(toks, 5);
    } else {
        lemma_parse_rest(toks, rank - 1);
        let left = if rank == 2 {
            parse_unary_spec(toks)
        } else if rank == 3 {
            parse_factor_spec(toks)
        } else if rank == 4 {
            parse_term_spec(toks)
        } else {
            parse_comparison_spec(toks)
        };
        if left.expr is Some && left.rest.len() > 0 && left.rest.len() <= toks.len() {
            if wf_tokens(toks) {
                lemma_wf_tokens_skip(left.rest, 1);
                assert(left.rest.skip(1) =~= left.rest.drop_first());
            }
            lemma_parse_rest(left.rest.drop_first(), rank - 1);
        }
    }
}

/// Dropping the first token keeps a sequence well-formed.
proof fn proof_wf_drop_first(toks: Seq<TokenV>)
    requires
        toks.len() > 0,
    ensures
        wf_tokens(toks) ==> wf_tokens(toks.drop_first()),
{
    if wf_tokens(toks) {
        lemma_wf_tokens_skip(toks, 1);
        assert(toks.skip(1) =~= toks.drop_first());
    }
}

/// Holds the expression tree building state: the token stream behind its
/// lookahead buffer, and the parse errors collected so far.
pub struct AST {
    /// The tokens not yet consumed, behind the lookahead buffer.
    pub tokens: Multipeek<Token>,
    /// The parse errors collected so far.
    pub errors: Vec<ParseError>,
}

impl AST {
    /// The views of the tokens not yet consumed.
    pub open spec fn toks(&self) -> Seq<TokenV> {
        views_of(self.tokens.remaining())
    }

    /// Wraps a token sequence for parsing.
    pub fn new(tokens: Vec<Token>) -> (ast: AST)
        ensures
            ast.toks() == tokens.deep_view(),
            ast.errors@ == Seq::<ParseError>::empty(),
    {
        let ast = AST { tokens: Multipeek::new(tokens), errors: Vec::new() };
        proof {
            assert(ast.toks() =~= ast.tokens.remaining().map_values(|t: Token| t@));
        }
        ast
    }

    /// Appends one parse error, leaving the token stream untouched.
    fn note_error(&mut self, e: ParseError)
        ensures
            final(self).errors.deep_view() == old(self).errors.deep_view().push(e@),
            final(self).tokens == old(self).tokens,
    {
        let ghost ev = e@;
        self.errors.push(e);
        proof {
            assert(self.errors.deep_view() =~= old(self).errors.deep_view().push(ev));
        }
    }

    /// Triggers the parsing mechanism over the whole token sequence.
    pub fn parse(&mut self) -> (r: Option<Expression>)
        requires
            wf_tokens(old(self).toks()),
        ensures
            parse_result(old(self).toks(), old(self).errors.deep_view(), *final(self), r),
        decreases old(self).toks().len(), 7int,
    {
        self.parse_expression()
    }

    /// Parses the top level rule: expression -> equality.
    pub fn parse_expression(&mut self) -> (r: Option<Expression>)
        requires
            wf_tokens(old(self).toks()),
        ensures
            parse_result(old(self).toks(), old(self).errors.deep_view(), *final(self), r),
        decreases old(self).toks().len(), 6int,
    {
        self.parse_equality()
    }

    /// Parses equality expressions: equality -> comparison (("==" | "!=") comparison)?
    #[verifier::rlimit(100)]
    #[verifier::spinoff_prover]
    pub fn parse_equality(&mut self) -> (r: Option<Expression>)
        requires
            wf_tokens(old(self).toks()),
        ensures
            rule_result(
                parse_equality_spec(old(self).toks()),
                old(self).errors.deep_view(),
                *final(self),
                r,
            ),
        decreases old(self).toks().len(), 5int,
    {
        let ghost toks0 = self.toks();
        let ghost errs0 = self.errors.deep_view();
        let left = match self.parse_comparison() {
            Some(l) => l,
            None => {
                return None;
            },
        };
        proof {
            lemma_parse_rest(toks0, 4);
        }
        let ghost toks_mid = self.toks();
        let pred = (|t: &Token| -> (b: bool)
                ensures
                    b == is_equality_op(t.kind),
                { t.kind == TokenKind::DoubleEqual || t.kind == TokenKind::BangEqual });
        let op = self.tokens.next_if(pred);
        match op {
            Some(operator) => {
                proof {
                    assert(operator@ == toks_mid[0]);
                    assert(self.toks() =~= toks_mid.drop_first());
                    lemma_wf_tokens_skip(toks_mid, 1);
                    assert(toks_mid.skip(1) =~= toks_mid.drop_first());
                }
                let right = match self.parse_comparison() {
                    Some(x) => x,
                    None => {
                        proof {
                            assert(self.errors.deep_view() =~= errs0 + (parse_comparison_spec(toks0).errs
                                + parse_comparison_spec(toks_mid.drop_first()).errs));
                        }
                        return None;
                    },
                };
                proof {
                    assert(self.errors.deep_view() =~= errs0 + (parse_comparison_spec(toks0).errs
                        + parse_comparison_spec(toks_mid.drop_first()).errs));
                }
                Some(Expression::Binary(left.as_box(), operator, right.as_box()))
            },
            None => Some(left),
        }
    }

    /// Parses comparison expressions: comparison -> term ((">" | ">=" | "<" | "<=") term)?
    #[verifier::rlimit(60)]
    pub fn parse_comparison(&mut self) -> (r: Option<Expression>)
        requires
            wf_tokens(old(self).toks()),
        ensures
            rule_result(
                parse_comparison_spec(old(self).toks()),
                old(self).errors.deep_view(),
                *final(self),
                r,
            ),
        decreases old(self).toks().len(), 4int,
    {
        let ghost toks0 = self.toks();
        let ghost errs0 = self.errors.deep_view();
        let left = match self.parse_term() {
            Some(l) => l,
            None => {
                return None;
            },
        };
        proof {
            lemma_parse_rest(toks0, 3);
        }
        let ghost toks_mid = self.toks();
        let pred = (|t: &Token| -> (b: bool)
                ensures
                    b == is_comparison_op(t.kind),
                { t.kind == TokenKind::Great || t.kind == TokenKind::GreatEqual || t.kind == TokenKind::Less
                        || t.kind == TokenKind::LessEqual });
        let op = self.tokens.next_if(pred);
        match op {
            Some(operator) => {
                proof {
                    assert(operator@ == toks_mid[0]);
                    assert(self.toks() =~= toks_mid.drop_first());
                    lemma_wf_tokens_skip(toks_mid, 1);
                    assert(toks_mid.skip(1) =~= toks_mid.drop_first());
                }
                let right = match self.parse_term() {
                    Some(x) => x,
                    None => {
                        proof {
                            assert(self.errors.deep_view() =~= errs0 + (parse_term_spec(toks0).errs
                                + parse_term_spec(toks_mid.drop_first()).errs));
                        }
                        return None;
                    },
                };
                proof {
                    assert(self.errors.deep_view() =~= errs0 + (parse_term_spec(toks0).errs
                        + parse_term_spec(toks_mid.drop_first()).errs));
                }
                Some(Expression::Binary(left.as_box(), operator, right.as_box()))
            },
            None => Some(left),
        }
    }

    /// Parses term expressions: term -> factor (("+" | "-") factor)?
    #[verifier::rlimit(60)]
    pub fn parse_term(&mut self) -> (r: Option<Expression>)
        requires
            wf_tokens(old(self).toks()),
        ensures
            rule_result(
                parse_term_spec(old(self).toks()),
                old(self).errors.deep_view(),
                *final(self),
                r,
            ),
        decreases old(self).toks().len(), 3int,
    {
        let ghost toks0 = self.toks();
        let ghost errs0 = self.errors.deep_view();
        let left = match self.parse_factor() {
            Some(l) => l,
            None => {
                return None;
            },
        };
        proof {
            lemma_parse_rest(toks0, 2);
        }
        let ghost toks_mid = self.toks();
        let pred = (|t: &Token| -> (b: bool)
                ensures
                    b == is_term_op(t.kind),
                { t.kind == TokenKind::Plus || t.kind == TokenKind::Minus });
        let op = self.tokens.next_if(pred);
        match op {
            Some(operator) => {
                proof {
                    assert(operator@ == toks_mid[0]);
                    assert(self.toks() =~= toks_mid.drop_first());
                    lemma_wf_tokens_skip(toks_mid, 1);
                    assert(toks_mid.skip(1) =~= toks_mid.drop_first());
                }
                let right = match self.parse_factor() {
                    Some(x) => x,
                    None => {
                        proof {
                            assert(self.errors.deep_view() =~= errs0 + (parse_factor_spec(toks0).errs
                                + parse_factor_spec(toks_mid.drop_first()).errs));
                        }
                        return None;
                    },
                };
                proof {
                    assert(self.errors.deep_view() =~= errs0 + (parse_factor_spec(toks0).errs
                        + parse_factor_spec(toks_mid.drop_first()).errs));
                }
                Some(Expression::Binary(left.as_box(), operator, right.as_box()))
            },
            None => Some(left),
        }
    }

    /// Parses factor expressions: factor -> unary (("*" | "/") unary)?
    #[verifier::rlimit(60)]
    pub fn parse_factor(&mut self) -> (r: Option<Expression>)
        requires
            wf_tokens(old(self).toks()),
        ensures
            rule_result(
                parse_factor_spec(old(self).toks()),
                old(self).errors.deep_view(),
                *final(self),
                r,
            ),
        decreases old(self).toks().len(), 2int,
    {
        let ghost toks0 = self.toks();
        let ghost errs0 = self.errors.deep_view();
        let left = match self.parse_unary() {
            Some(l) => l,
            None => {
                return None;
            },
        };
        proof {
            lemma_parse_rest(toks0, 1);
        }
        let ghost toks_mid = self.toks();
        let pred = (|t: &Token| -> (b: bool)
                ensures
                    b == is_factor_op(t.kind),
                { t.kind == TokenKind::Star || t.kind == TokenKind::Slash });
        let op = self.tokens.next_if(pred);
        match op {
            Some(operator) => {
                proof {
                    assert(operator@ == toks_mid[0]);
                    assert(self.toks() =~= toks_mid.drop_first());
                    lemma_wf_tokens_skip(toks_mid, 1);
                    assert(toks_mid.skip(1) =~= toks_mid.drop_first());
                }
                let right = match self.parse_unary() {
                    Some(x) => x,
                    None => {
                        proof {
                            assert(self.errors.deep_view() =~= errs0 + (parse_unary_spec(toks0).errs
                                + parse_unary_spec(toks_mid.drop_first()).errs));
                        }
                        return None;
                    },
                };
                proof {
                    assert(self.errors.deep_view() =~= errs0 + (parse_unary_spec(toks0).errs
                        + parse_unary_spec(toks_mid.drop_first()).errs));
                }
                Some(Expression::Binary(left.as_box(), operator, right.as_box()))
            },
            None => Some(left),
        }
    }

    /// Parses unary expressions: unary -> ("!" | "-") unary | primary.
    pub fn parse_unary(&mut self) -> (r: Option<Expression>)
        requires
            wf_tokens(old(self).toks()),
        ensures
            rule_result(
                parse_unary_spec(old(self).toks()),
                old(self).errors.deep_view(),
                *final(self),
                r,
            ),
        decreases old(self).toks().len(), 1int,
    {
        let ghost toks0 = self.toks();
        let pred = (|t: &Token| -> (b: bool)
                ensures
                    b == is_unary_op(t.kind),
                { t.kind == TokenKind::Bang || t.kind == TokenKind::Minus });
        let op = self.tokens.next_if(pred);
        match op {
            Some(operator) => {
                proof {
                    assert(operator@ == toks0[0]);
                    assert(self.toks() =~= toks0.drop_first());
                    lemma_wf_tokens_skip(toks0, 1);
                    assert(toks0.skip(1) =~= toks0.drop_first());
                }
                let target = match self.parse_unary() {
                    Some(t) => t,
                    None => {
                        return None;
                    },
                };
                Some(Expression::Unary(operator, target.as_box()))
            },
            None => self.parse_primary(),
        }
    }

    /// Parses literal and grouping expressions:
    /// primary -> NUMBER | STRING | "true" | "false" | "null" | "(" expression ")".
    pub fn parse_primary(&mut self) -> (r: Option<Expression>)
        requires
            wf_tokens(old(self).toks()),
        ensures
            rule_result(
                parse_primary_spec(old(self).toks()),
                old(self).errors.deep_view(),
                *final(self),
                r,
            ),
        decreases old(self).toks().len(), 0int,
    {
        let ghost toks0 = self.toks();
        let ghost errs0 = self.errors.deep_view();
        let tok = match self.tokens.next() {
            Some(t) => t,
            None => {
                self.note_error(ParseError::ExpectedExpression);
                proof {
                    assert(self.errors.deep_view() =~= errs0 + seq![
                        ParseErrorV::ExpectedExpression,
                    ]);
                }
                return None;
            },
        };
        proof {
            assert(tok@ == toks0[0]);
            assert(self.toks() =~= toks0.drop_first());
            assert(errs0 + Seq::<ParseErrorV>::empty() =~= errs0);
        }
        match tok.kind {
            TokenKind::Number => {
                proof {
                    assert(wf_token(toks0[0]));
                }
                let n = number_value(tok.lexeme.as_str());
                Some(Expression::Number(n))
            },
            TokenKind::String => Some(Expression::String(tok.lexeme)),
            TokenKind::True => Some(Expression::Boolean(true)),
            TokenKind::False => Some(Expression::Boolean(false)),
            TokenKind::Null => Some(Expression::Null),
            TokenKind::LeftParentheses => {
                proof {
                    lemma_wf_tokens_skip(toks0, 1);
                    assert(toks0.skip(1) =~= toks0.drop_first());
                }
                let inner = match self.parse_expression() {
                    Some(e) => e,
                    None => {
                        return None;
                    },
                };
                let ghost inner_out = parse_expression_spec(toks0.drop_first());
                let ghost toks_mid = self.toks();
                match self.tokens.next() {
                    Some(closing) => {
                        proof {
                            assert(closing@ == toks_mid[0]);
                            assert(self.toks() =~= toks_mid.drop_first());
                        }
                        if closing.kind != TokenKind::RightParentheses {
                            self.note_error(
                                ParseError::UnexpectedToken(String::from_str(")"), closing.lexeme),
                            );
                            proof {
                                assert(self.errors.deep_view() =~= errs0 + inner_out.errs.push(
                                    ParseErrorV::UnexpectedToken(")"@, toks_mid[0].lexeme),
                                ));
                            }
                        }
                        Some(Expression::Group(inner.as_box()))
                    },
                    None => {
                        self.note_error(
                            ParseError::UnexpectedToken(String::from_str(")"), String::new()),
                        );
                        proof {
                            assert(self.errors.deep_view() =~= errs0 + inner_out.errs.push(
                                ParseErrorV::UnexpectedToken(")"@, Seq::empty()),
                            ));
                        }
                        Some(Expression::Group(inner.as_box()))
                    },
                }
            },
            _ => {
                self.note_error(ParseError::ExpectedExpression);
                proof {
                    assert(self.errors.deep_view() =~= errs0 + seq![
                        ParseErrorV::ExpectedExpression,
                    ]);
                }
                None
            },
        }
    }
}

/// The contract all parsing rules share, stated against the rule's spec
/// function: the returned expression, the tokens left over, and the errors
/// appended are exactly what the spec function says.
pub open spec fn rule_result(out: ParseOut, errs0: Seq<ParseErrorV>, ast: AST, r: Option<
    Expression,
>) -> bool {
    &&& ast.toks() == out.rest
    &&& ast.errors.deep_view() == errs0 + out.errs
    &&& match r {
        Option::Some(e) => out.expr == Option::Some(e.deep_view()),
        Option::None => out.expr is None,
    }
}

/// `rule_result` for the top level expression rule.
pub open spec fn parse_result(
    toks: Seq<TokenV>,
    errs0: Seq<ParseErrorV>,
    ast: AST,
    r: Option<Expression>,
) -> bool {
    rule_result(parse_expression_spec(toks), errs0, ast, r)
}

} // verus!
