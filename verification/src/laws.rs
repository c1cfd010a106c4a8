use vstd::prelude::*;
use crate::evaluator::{EvalError, ValueV};
use crate::expressions::{digit_val, lexeme_number, ExprV};
use crate::run_source;
use crate::runtime::eval_spec;
use crate::scanner::{
    bumped,
    digit_run_end,
    ident_run_end,
    is_alpha_char,
    is_blank_char,
    is_digit_char,
    is_ident_char,
    keyword_kind,
    lemma_digit_run_end,
    lemma_ident_run_end,
    lemma_line_end,
    lemma_string_body_end,
    line_end,
    pair_op_kind,
    punct_kind,
    scan_from,
    single_op_kind,
    string_body_end,
    LexErrorV,
    ScanOut,
};
use crate::tokens::{TokenKind, TokenV};

verus! {

/// Scanning a source made of one valid single-character lexeme emits exactly
/// one token whose lexeme is that character, whose kind is the character's
/// mapping, and whose line is the first; and no lexical error.
pub proof fn law_single_char_token(c: char)
    requires
        punct_kind(c) is Some || single_op_kind(c) is Some,
    ensures
        ({
            let out = scan_from(seq![c], 0, 1);
            let kind = if single_op_kind(c) is Some {
                single_op_kind(c)->Some_0
            } else {
                punct_kind(c)->Some_0
            };
            &&& out.tokens =~= seq![TokenV { kind, lexeme: seq![c], line: 1 }]
            &&& out.errors =~= Seq::<LexErrorV>::empty()
        }),
{
    let s = seq![c];
    assert(s.subrange(0, 1) =~= seq![c]);
    assert(scan_from(s, 1, 1).tokens =~= Seq::<TokenV>::empty());
    let out = scan_from(s, 0, 1);
    assert(out.tokens =~= seq![out.tokens[0]]);
}

/// Scanning a source made of one two-character operator (`==`, `!=`, `>=`,
/// `<=`) emits one compound token holding both characters, not two
/// single-character tokens; and no lexical error.
pub proof fn law_pair_operator_token(c: char)
    requires
        pair_op_kind(c) is Some,
    ensures
        ({
            let out = scan_from(seq![c, '='], 0, 1);
            &&& out.tokens =~= seq![
                TokenV { kind: pair_op_kind(c)->Some_0, lexeme: seq![c, '='], line: 1 },
            ]
            &&& out.errors =~= Seq::<LexErrorV>::empty()
        }),
{
    let s = seq![c, '='];
    assert(s.subrange(0, 2) =~= seq![c, '=']);
    assert(scan_from(s, 2, 1).tokens =~= Seq::<TokenV>::empty());
    let out = scan_from(s, 0, 1);
    assert(out.tokens =~= seq![out.tokens[0]]);
}

/// The reserved keyword table, by exact spelling.
pub open spec fn is_reserved_word(s: Seq<char>) -> bool {
    ||| s == "and"@
    ||| s == "else"@
    ||| s == "false"@
    ||| s == "for"@
    ||| s == "function"@
    ||| s == "func"@
    ||| s == "if"@
    ||| s == "null"@
    ||| s == "or"@
    ||| s == "print"@
    ||| s == "return"@
    ||| s == "true"@
    ||| s == "var"@
    ||| s == "while"@
}

/// Scanning a source made of one letter-leading alphanumeric run emits
/// exactly one token carrying the run verbatim; its kind is the keyword kind
/// when the run is a reserved spelling, and `Identifier` exactly otherwise.
pub proof fn law_keyword_or_identifier_token(s: Seq<char>)
    requires
        s.len() > 0,
        is_alpha_char(s[0]),
        forall|j: int| 0 <= j < s.len() ==> is_ident_char(#[trigger] s[j]),
    ensures
        ({
            let out = scan_from(s, 0, 1);
            &&& out.tokens =~= seq![TokenV { kind: keyword_kind(s), lexeme: s, line: 1 }]
            &&& out.errors =~= Seq::<LexErrorV>::empty()
            &&& (keyword_kind(s) == TokenKind::Identifier <==> !is_reserved_word(s))
        }),
{
    lemma_ident_run_end(s, 1);
    let end = ident_run_end(s, 1);
    assert(end == s.len());
    assert(s.subrange(0, s.len() as int) =~= s);
    assert(is_alpha_char(s[0]) ==> single_op_kind(s[0]) is None && punct_kind(s[0]) is None
        && !is_blank_char(s[0]) && !is_digit_char(s[0]));
    assert(scan_from(s, s.len() as int, 1).tokens =~= Seq::<TokenV>::empty());
    let out = scan_from(s, 0, 1);
    assert(out.tokens =~= seq![out.tokens[0]]);
}

/// The exact numeric value of a digit run.
pub open spec fn digits_value(s: Seq<char>) -> int
    decreases s.len(),
{
    if s.len() == 0 {
        0
    } else {
        10 * digits_value(s.drop_last()) + digit_val(s.last())
    }
}

/// On a digit run whose value is representable, the saturating read gives the
/// exact value.
pub proof fn lemma_lexeme_number_exact(s: Seq<char>)
    requires
        forall|j: int| 0 <= j < s.len() ==> is_digit_char(#[trigger] s[j]),
        digits_value(s) <= i64::MAX,
    ensures
        digits_value(s) >= 0,
        lexeme_number(s) == digits_value(s),
    decreases s.len(),
{
    lemma_digits_value_nonneg(s);
    if s.len() > 0 {
        let prefix = s.drop_last();
        assert(forall|j: int| 0 <= j < prefix.len() ==> is_digit_char(#[trigger] prefix[j]));
        lemma_digits_value_nonneg(prefix);
        assert(is_digit_char(s[s.len() - 1]));
        assert(digit_val(s.last()) >= 0);
        assert(10 * digits_value(prefix) >= digits_value(prefix)) by (nonlinear_arith)
            requires
                digits_value(prefix) >= 0,
        ;
        assert(digits_value(prefix) <= digits_value(s));
        lemma_lexeme_number_exact(prefix);
    }
}

/// A digit run's value is never negative.
pub proof fn lemma_digits_value_nonneg(s: Seq<char>)
    requires
        forall|j: int| 0 <= j < s.len() ==> is_digit_char(#[trigger] s[j]),
    ensures
        digits_value(s) >= 0,
    decreases s.len(),
{
    if s.len() > 0 {
        let prefix = s.drop_last();
        assert(forall|j: int| 0 <= j < prefix.len() ==> is_digit_char(#[trigger] prefix[j]));
        lemma_digits_value_nonneg(prefix);
        assert(10 * digits_value(prefix) >= 0) by (nonlinear_arith)
            requires
                digits_value(prefix) >= 0,
        ;
    }
}

/// Round trip of a numeric literal: running a source that is one unsigned
/// digit run through the whole pipeline (scan, parse, evaluate) yields a
/// number equal to the run's exact decimal value, whenever that value is
/// representable.
pub proof fn law_number_round_trip(s: Seq<char>)
    requires
        s.len() > 0,
        forall|j: int| 0 <= j < s.len() ==> is_digit_char(#[trigger] s[j]),
        digits_value(s) <= i64::MAX,
    ensures
        run_source(s) == Result::<ValueV, crate::ExecuteErrorV>::Ok(
            ValueV::Number(digits_value(s) as i64),
        ),
{
    lemma_digit_run_end(s, 1);
    let end = digit_run_end(s, 1);
    assert(end == s.len());
    assert(s.subrange(0, s.len() as int) =~= s);
    assert(!is_blank_char(s[0]) && single_op_kind(s[0]) is None && punct_kind(s[0]) is None);
    assert(scan_from(s, s.len() as int, 1).tokens =~= Seq::<TokenV>::empty());
    let toks = scan_from(s, 0, 1).tokens;
    let t = TokenV { kind: TokenKind::Number, lexeme: s, line: 1 };
    assert(toks =~= seq![t]);
    assert(toks.drop_first() =~= Seq::<TokenV>::empty());
    lemma_lexeme_number_exact(s);
}

/// A numeric negation applied to a boolean fails with
/// `CannotEvaluateAsNumber`, whatever the boolean and whatever the `-`
/// operator token's lexeme and line.
pub proof fn law_negate_boolean_mismatch(op: TokenV, b: bool)
    requires
        op.kind == TokenKind::Minus,
    ensures
        eval_spec(ExprV::Unary(op, Box::new(ExprV::Boolean(b)))) == Result::<
            ValueV,
            EvalError,
        >::Err(EvalError::CannotEvaluateAsNumber),
{
    assert(eval_spec(ExprV::Boolean(b)) == Result::<ValueV, EvalError>::Ok(ValueV::Boolean(b)));
}

/// Scanning a source made of one unrecognized character emits no token and
/// exactly one lexical error carrying that character and the first line.
pub proof fn law_unknown_char(c: char)
    requires
        c != '\n',
        !is_blank_char(c),
        c != '#',
        single_op_kind(c) is None,
        punct_kind(c) is None,
        c != '"',
        !is_digit_char(c),
        !is_alpha_char(c),
    ensures
        ({
            let out = scan_from(seq![c], 0, 1);
            &&& out.tokens =~= Seq::<TokenV>::empty()
            &&& out.errors =~= seq![LexErrorV { fragment: seq![c], line: 1 }]
        }),
{
    let s = seq![c];
    lemma_line_end(s, 1);
    assert(line_end(s, 1) == 1);
    assert(s.subrange(0, 1) =~= seq![c]);
    assert(scan_from(s, 1, 1).errors =~= Seq::<LexErrorV>::empty());
    let out = scan_from(s, 0, 1);
    assert(out.errors =~= seq![out.errors[0]]);
}

/// Line numbers are monotonically non-decreasing across the token sequence:
/// every token the scanner emits carries a line at or after the line the scan
/// started on and at or before the final line counter, and tokens that come
/// later never carry an earlier line.
pub proof fn law_token_lines_monotonic(s: Seq<char>, i: int, line: u32)
    requires
        0 <= i <= s.len(),
    ensures
        ({
            let out = scan_from(s, i, line);
            &&& line <= out.line
            &&& forall|j: int|
                0 <= j < out.tokens.len() ==> line <= (#[trigger] out.tokens[j]).line <= out.line
            &&& forall|j: int, k: int|
                0 <= j <= k < out.tokens.len() ==> (#[trigger] out.tokens[j]).line <= (
                #[trigger] out.tokens[k]).line
        }),
    decreases s.len() - i,
{
    if i < s.len() {
        let c = s[i];
        lemma_line_end(s, i + 1);
        lemma_string_body_end(s, i + 1);
        lemma_digit_run_end(s, i + 1);
        lemma_ident_run_end(s, i + 1);
        let out = scan_from(s, i, line);
        if c == '\n' {
            law_token_lines_monotonic(s, i + 1, bumped(line));
        } else if is_blank_char(c) {
            law_token_lines_monotonic(s, i + 1, line);
        } else if c == '#' {
            law_token_lines_monotonic(s, line_end(s, i + 1), line);
        } else if single_op_kind(c) is Some {
            if i + 1 < s.len() && s[i + 1] == '=' {
                law_token_lines_monotonic(s, i + 2, line);
                proof_cons_lines(line, out, scan_from(s, i + 2, line));
            } else {
                law_token_lines_monotonic(s, i + 1, line);
                proof_cons_lines(line, out, scan_from(s, i + 1, line));
            }
        } else if punct_kind(c) is Some {
            law_token_lines_monotonic(s, i + 1, line);
            proof_cons_lines(line, out, scan_from(s, i + 1, line));
        } else if c == '"' {
            let close = string_body_end(s, i + 1);
            let next = if close < s.len() {
                close + 1
            } else {
                close
            };
            law_token_lines_monotonic(s, next, line);
            proof_cons_lines(line, out, scan_from(s, next, line));
        } else if is_digit_char(c) {
            let end = digit_run_end(s, i + 1);
            law_token_lines_monotonic(s, end, line);
            proof_cons_lines(line, out, scan_from(s, end, line));
        } else if is_alpha_char(c) {
            let end = ident_run_end(s, i + 1);
            law_token_lines_monotonic(s, end, line);
            proof_cons_lines(line, out, scan_from(s, end, line));
        } else {
            let end = line_end(s, i + 1);
            law_token_lines_monotonic(s, end, line);
        }
    }
}

/// Prepending one token carrying the current line keeps the line bounds and
/// their monotonic order, provided the rest already satisfies them from that
/// line on.
proof fn proof_cons_lines(line: u32, out: ScanOut, rest: ScanOut)
    requires
        out.tokens.len() == rest.tokens.len() + 1,
        out.tokens[0].line == line,
        out.line == rest.line,
        forall|j: int| 1 <= j < out.tokens.len() ==> out.tokens[j] == rest.tokens[j - 1],
        line <= rest.line,
        forall|j: int|
            0 <= j < rest.tokens.len() ==> line <= (#[trigger] rest.tokens[j]).line <= rest.line,
        forall|j: int, k: int|
            0 <= j <= k < rest.tokens.len() ==> (#[trigger] rest.tokens[j]).line <= (
            #[trigger] rest.tokens[k]).line,
    ensures
        forall|j: int|
            0 <= j < out.tokens.len() ==> line <= (#[trigger] out.tokens[j]).line <= out.line,
        forall|j: int, k: int|
            0 <= j <= k < out.tokens.len() ==> (#[trigger] out.tokens[j]).line <= (
            #[trigger] out.tokens[k]).line,
{
}

} // verus!
