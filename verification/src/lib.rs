//! A compiler front end and interpreter for a small calculation
//! language over named fields: a grammar with structural operator
//! precedence, a converter from the recognized parse tree to a typed
//! abstract syntax tree, and an evaluator that resolves field
//! references against a caller-supplied context and dispatches the
//! built-in arithmetic, comparison and boolean operators.
//!
//! Numbers are exact 64-bit fractions rather than floating point; an
//! exact result that leaves that range is reported as a distinct
//! numeric-overflow error rather than rounded.

use vstd::prelude::*;

pub mod chars;
pub mod number;
pub mod ast;
pub mod eval;
pub mod grammar;
pub mod convert;
pub mod laws;

use crate::ast::{lit_view, LiteralValue};
use crate::chars::str_to_chars;
use crate::convert::{convert_to_ast, spec_convert, ConvertError};
use crate::eval::{ctx_wf, err_view, eval_ast, spec_eval, EvalContext, EvalError};
use crate::grammar::{parse_input, spec_error_position, spec_parse_input, ParseError, ParseNode};

verus! {

/// What evaluating a formula string can report: a syntax error with
/// the offending position, an internal converter fault, or a classified
/// evaluation error.
#[derive(Debug, PartialEq)]
pub enum ExprError {
    /// The text does not match the grammar; the position names the
    /// offending token.
    Syntax { position: usize },
    /// The converter met a parse-tree shape outside the grammar's
    /// productions, or a literal outside the machine representation —
    /// an internal fault, not a user-facing syntax error.
    Internal { fault: ConvertError },
    /// Evaluation failed with a classified error.
    Eval { error: EvalError },
}

/// The recognizer of the formula language: accepts a formula string
/// and returns its parse tree, or a syntax error naming the offending
/// position.
pub struct ExpressionParser;

impl ExpressionParser {
    /// Recognizes one whole formula.
    pub fn parse(input: &str) -> (r: Result<ParseNode, ParseError>)
        ensures
            match r {
                Result::Ok(n) => spec_parse_input(input@) == Option::Some(n@),
                Result::Err(e) => spec_parse_input(input@) is None && e.position as int
                    == spec_error_position(input@),
            },
    {
        let chars = str_to_chars(input);
        parse_input(&chars)
    }
}

/// Parses, converts and evaluates one formula string against a context:
/// a syntax error (with position) where the text does not match the
/// grammar, the converter's fault where the tree cannot be converted,
/// and otherwise exactly what the semantics gives the converted tree.
pub fn eval_expression(input: &str, ctx: &EvalContext) -> (r: Result<LiteralValue, ExprError>)
    requires
        ctx_wf(ctx@),
    ensures
        match spec_parse_input(input@) {
            Option::None => r matches Result::Err(ExprError::Syntax { position }) && position as int
                == spec_error_position(input@),
            Option::Some(t) => match spec_convert(input@, t) {
                Result::Err(ce) => r == Result::Err::<LiteralValue, ExprError>(
                    ExprError::Internal { fault: ce },
                ),
                Result::Ok(ev) => match spec_eval(ev, ctx@) {
                    Result::Ok(v) => r matches Result::Ok(out) && lit_view(out) == v,
                    Result::Err(ee) => r matches Result::Err(ExprError::Eval { error }) && err_view(
                        error,
                    ) == ee,
                },
            },
        },
{
    let chars = str_to_chars(input);
    match parse_input(&chars) {
        Err(pe) => Err(ExprError::Syntax { position: pe.position }),
        Ok(node) => match convert_to_ast(&chars, &node) {
            Err(ce) => Err(ExprError::Internal { fault: ce }),
            Ok(e) => match eval_ast(&e, ctx) {
                Ok(v) => Ok(v),
                Err(ee) => Err(ExprError::Eval { error: ee }),
            },
        },
    }
}

} // verus!
