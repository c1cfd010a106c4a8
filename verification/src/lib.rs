use vstd::prelude::*;

pub mod ast;
pub mod evaluator;
pub mod expressions;
pub mod laws;
pub mod multipeek;
pub mod output;
pub mod runtime;
pub mod scanner;
pub mod tokens;

use crate::ast::ParseErrorV;
use crate::evaluator::{EvalError, ValueV};
use crate::expressions::{lemma_scan_wf, parse_expression_spec, ExprV, AST};
use crate::output::Output;
use crate::runtime::{eval_spec, Interpreter};
use crate::scanner::{scan_from, Scanner};

verus! {

/// Why a source text produced no value: either the parser built no
/// expression tree (with the parse errors it collected), or the tree's
/// evaluation failed.
#[derive(Debug, PartialEq)]
pub enum ExecuteError {
    /// No expression tree was produced; holds the collected parse errors.
    Parse(Vec<ast::ParseError>),
    /// Evaluating the tree failed with the given typed error.
    Eval(EvalError),
}

/// Mathematical model of an `ExecuteError`.
pub ghost enum ExecuteErrorV {
    Parse(Seq<ParseErrorV>),
    Eval(EvalError),
}

impl View for ExecuteError {
    type V = ExecuteErrorV;

    open spec fn view(&self) -> ExecuteErrorV {
        match self {
            ExecuteError::Parse(errs) => ExecuteErrorV::Parse(errs.deep_view()),
            ExecuteError::Eval(e) => ExecuteErrorV::Eval(*e),
        }
    }
}

/// What running a source text through the whole pipeline gives: the text is
/// scanned into tokens, the tokens are parsed into one expression tree, and
/// the tree is evaluated to a value. When the parser produces no tree the
/// collected parse errors come back; when evaluation fails its typed error
/// comes back.
pub open spec fn run_source(src: Seq<char>) -> Result<ValueV, ExecuteErrorV> {
    let toks = scan_from(src, 0, 1).tokens;
    let out = parse_expression_spec(toks);
    match out.expr {
        Option::None => Result::Err(ExecuteErrorV::Parse(out.errs)),
        Option::Some(e) => match eval_spec(e) {
            Result::Ok(v) => Result::Ok(v),
            Result::Err(err) => Result::Err(ExecuteErrorV::Eval(err)),
        },
    }
}

/// Scans, parses and evaluates one unit of source text.
///
/// Lexical errors do not stop the pipeline: scanning continues past them and
/// the tokens that were recognized are parsed (a caller that wants the
/// lexical diagnostics runs a `Scanner` itself).
pub fn execute_code(source: &str) -> (r: Result<Output, ExecuteError>)
    ensures
        match r {
            Result::Ok(o) => run_source(source@) == Result::<ValueV, ExecuteErrorV>::Ok(o.0@),
            Result::Err(e) => run_source(source@) == Result::<ValueV, ExecuteErrorV>::Err(e@),
        },
{
    let mut scanner = Scanner::new(source);
    scanner.scan_tokens();
    proof {
        lemma_scan_wf(source@, 0, 1);
        assert(scanner.tokens.deep_view() =~= scan_from(source@, 0, 1).tokens);
    }
    let mut ast = AST::new(scanner.tokens);
    let expression = ast.parse();
    match expression {
        None => {
            proof {
                assert(ast.errors.deep_view() =~= parse_expression_spec(
                    scan_from(source@, 0, 1).tokens,
                ).errs);
            }
            Err(ExecuteError::Parse(ast.errors))
        },
        Some(e) => match Interpreter::evaluate(e) {
            Ok(o) => Ok(o),
            Err(err) => Err(ExecuteError::Eval(err)),
        },
    }
}

} // verus!
