//! The evaluator: walks an AST against a named-field context and
//! produces a literal value or a classified evaluation error.
//!
//! `spec_eval` is the semantics of the language; `eval_ast` computes it.

use vstd::prelude::*;

use crate::ast::{
    branches_view, expr_view, exprs_view, exprsv_wf, exprv_wf, lit_view, litv_wf, CaseBranch,
    CaseBranchV, ExprV, Expression, LitV, LiteralValue,
};
use crate::chars::string_is;
use crate::number::{
    spec_num_add, spec_num_div, spec_num_eq, spec_num_lt, spec_num_mul, spec_num_sub, Rational,
};

verus! {

/// A classified evaluation error. Evaluation never panics and never
/// coerces an error into a default value.
///
/// Beside the four classes of the language's error taxonomy there is a
/// fifth, `NumericOverflow`: numbers here are exact 64-bit fractions
/// rather than floating point, and an exact result that leaves that
/// range is reported rather than rounded or wrapped.
#[derive(Debug, PartialEq)]
pub enum EvalError {
    /// The named field path is not present in the context.
    FieldNotFound(String),
    /// The function name is outside the built-in table; the embedding
    /// system resolves such names.
    UnknownFunction(String),
    /// An operand's kind, or the argument count, does not match the
    /// operator's requirement.
    TypeMismatch,
    /// Division by a zero-valued number.
    DivisionByZero,
    /// An exact numeric result does not fit the 64-bit fraction
    /// representation.
    NumericOverflow,
}

/// The view of an evaluation error.
pub enum EvalErrorV {
    FieldNotFoundV { field: Seq<char> },
    UnknownFunctionV { name: Seq<char> },
    TypeMismatchV,
    DivisionByZeroV,
    OverflowV,
}

pub open spec fn err_view(e: EvalError) -> EvalErrorV {
    match e {
        EvalError::FieldNotFound(f) => EvalErrorV::FieldNotFoundV { field: f@ },
        EvalError::UnknownFunction(n) => EvalErrorV::UnknownFunctionV { name: n@ },
        EvalError::TypeMismatch => EvalErrorV::TypeMismatchV,
        EvalError::DivisionByZero => EvalErrorV::DivisionByZeroV,
        EvalError::NumericOverflow => EvalErrorV::OverflowV,
    }
}

pub open spec fn eval_res_view(r: Result<LiteralValue, EvalError>) -> Result<LitV, EvalErrorV> {
    match r {
        Result::Ok(v) => Result::Ok(lit_view(v)),
        Result::Err(e) => Result::Err(err_view(e)),
    }
}

pub open spec fn lits_view(s: Seq<LiteralValue>) -> Seq<LitV> {
    Seq::new(
        s.len(),
        |i: int|
            if 0 <= i < s.len() {
                lit_view(s[i])
            } else {
                arbitrary()
            },
    )
}

/// Every value of the context is well-formed.
pub open spec fn ctx_wf(m: Map<Seq<char>, LitV>) -> bool {
    forall|k: Seq<char>| m.dom().contains(k) ==> litv_wf(#[trigger] m[k])
}

// ---------------------------------------------------------------------
// The semantics.
// ---------------------------------------------------------------------

/// The built-in table: what a named operator returns on the given
/// already-evaluated arguments.
///
/// Equality (`=`, `<>`) is defined on any two operands of the same
/// kind. The ordering comparisons (`<`, `<=`, `>`, `>=`) are read as
/// numeric only: on two strings or two booleans they are a
/// `TypeMismatch`, since the language defines no order on those kinds.
pub open spec fn spec_apply(name: Seq<char>, args: Seq<LitV>) -> Result<LitV, EvalErrorV> {
    if name == "+"@ || name == "-"@ || name == "*"@ || name == "/"@ {
        if args.len() == 2 && args[0] is NumV && args[1] is NumV {
            let n1 = args[0]->NumV_num;
            let d1 = args[0]->NumV_den;
            let n2 = args[1]->NumV_num;
            let d2 = args[1]->NumV_den;
            if name == "/"@ && n2 == 0 {
                Result::Err(EvalErrorV::DivisionByZeroV)
            } else {
                let computed = if name == "+"@ {
                    spec_num_add(n1, d1, n2, d2)
                } else if name == "-"@ {
                    spec_num_sub(n1, d1, n2, d2)
                } else if name == "*"@ {
                    spec_num_mul(n1, d1, n2, d2)
                } else {
                    spec_num_div(n1, d1, n2, d2)
                };
                match computed {
                    Option::Some(nd) => Result::Ok(LitV::NumV { num: nd.0, den: nd.1 }),
                    Option::None => Result::Err(EvalErrorV::OverflowV),
                }
            }
        } else {
            Result::Err(EvalErrorV::TypeMismatchV)
        }
    } else if name == "="@ || name == "<>"@ {
        if args.len() == 2 {
            let same = match (args[0], args[1]) {
                (LitV::StrV { chars: s1 }, LitV::StrV { chars: s2 }) => Result::Ok(s1 == s2),
                (
                    LitV::NumV { num: n1, den: d1 },
                    LitV::NumV { num: n2, den: d2 },
                ) => Result::Ok(spec_num_eq(n1, d1, n2, d2)),
                (LitV::BoolV { b: b1 }, LitV::BoolV { b: b2 }) => Result::Ok(b1 == b2),
                _ => Result::Err(EvalErrorV::TypeMismatchV),
            };
            match same {
                Result::Ok(eqv) => Result::Ok(
                    LitV::BoolV { b: if name == "="@ { eqv } else { !eqv } },
                ),
                Result::Err(e) => Result::Err(e),
            }
        } else {
            Result::Err(EvalErrorV::TypeMismatchV)
        }
    } else if name == "<"@ || name == "<="@ || name == ">"@ || name == ">="@ {
        if args.len() == 2 && args[0] is NumV && args[1] is NumV {
            let n1 = args[0]->NumV_num;
            let d1 = args[0]->NumV_den;
            let n2 = args[1]->NumV_num;
            let d2 = args[1]->NumV_den;
            let b = if name == "<"@ {
                spec_num_lt(n1, d1, n2, d2)
            } else if name == "<="@ {
                spec_num_lt(n1, d1, n2, d2) || spec_num_eq(n1, d1, n2, d2)
            } else if name == ">"@ {
                spec_num_lt(n2, d2, n1, d1)
            } else {
                spec_num_lt(n2, d2, n1, d1) || spec_num_eq(n1, d1, n2, d2)
            };
            Result::Ok(LitV::BoolV { b })
        } else {
            Result::Err(EvalErrorV::TypeMismatchV)
        }
    } else if name == "and"@ || name == "or"@ {
        if args.len() == 2 && args[0] is BoolV && args[1] is BoolV {
            let b1 = args[0]->BoolV_b;
            let b2 = args[1]->BoolV_b;
            Result::Ok(LitV::BoolV { b: if name == "and"@ { b1 && b2 } else { b1 || b2 } })
        } else {
            Result::Err(EvalErrorV::TypeMismatchV)
        }
    } else if name == "not"@ {
        if args.len() == 1 && args[0] is BoolV {
            Result::Ok(LitV::BoolV { b: !args[0]->BoolV_b })
        } else {
            Result::Err(EvalErrorV::TypeMismatchV)
        }
    } else {
        Result::Err(EvalErrorV::UnknownFunctionV { name })
    }
}

/// What an AST node evaluates to against a context: a literal value or
/// the first error met, reading left to right.
pub open spec fn spec_eval(e: ExprV, ctx: Map<Seq<char>, LitV>) -> Result<LitV, EvalErrorV>
    decreases e, 1nat, 0nat,
{
    match e {
        ExprV::LitE { value, wm } => Result::Ok(value),
        ExprV::FieldE { field_id, wm } => if ctx.dom().contains(field_id) {
            Result::Ok(ctx[field_id])
        } else {
            Result::Err(EvalErrorV::FieldNotFoundV { field: field_id })
        },
        ExprV::FuncE { name, params, wm, gm } => match spec_eval_params(params, ctx, 0) {
            Result::Ok(args) => spec_apply(name, args),
            Result::Err(er) => Result::Err(er),
        },
        ExprV::IfE { cond, thn, els, wm } => match spec_eval(*cond, ctx) {
            Result::Ok(LitV::BoolV { b }) => if b {
                spec_eval(*thn, ctx)
            } else {
                spec_eval(*els, ctx)
            },
            Result::Ok(_) => Result::Err(EvalErrorV::TypeMismatchV),
            Result::Err(er) => Result::Err(er),
        },
        ExprV::CaseE { cases, els, wm } => match spec_eval_cases(cases, ctx, 0) {
            Result::Ok(Option::Some(v)) => Result::Ok(v),
            Result::Ok(Option::None) => spec_eval(*els, ctx),
            Result::Err(er) => Result::Err(er),
        },
    }
}

/// The values of the parameters from index `i` on, in order; the first
/// failing parameter short-circuits.
pub open spec fn spec_eval_params(params: Seq<ExprV>, ctx: Map<Seq<char>, LitV>, i: int) -> Result<
    Seq<LitV>,
    EvalErrorV,
>
    decreases params, 0nat, (if i <= params.len() { params.len() - i } else { 0 }),
{
    if i < 0 || i >= params.len() {
        Result::Ok(Seq::empty())
    } else {
        match spec_eval(params[i], ctx) {
            Result::Ok(v) => match spec_eval_params(params, ctx, i + 1) {
                Result::Ok(rest) => Result::Ok(seq![v] + rest),
                Result::Err(er) => Result::Err(er),
            },
            Result::Err(er) => Result::Err(er),
        }
    }
}

/// The result of the first branch from index `i` on whose condition is
/// true, or `None` where no condition holds; conditions after the first
/// true one, and all later results, are never evaluated.
pub open spec fn spec_eval_cases(
    cases: Seq<CaseBranchV>,
    ctx: Map<Seq<char>, LitV>,
    i: int,
) -> Result<Option<LitV>, EvalErrorV>
    decreases cases, 0nat, (if i <= cases.len() { cases.len() - i } else { 0 }),
{
    if i < 0 || i >= cases.len() {
        Result::Ok(Option::None)
    } else {
        match spec_eval(cases[i].condition, ctx) {
            Result::Ok(LitV::BoolV { b }) => if b {
                match spec_eval(cases[i].result, ctx) {
                    Result::Ok(v) => Result::Ok(Option::Some(v)),
                    Result::Err(er) => Result::Err(er),
                }
            } else {
                spec_eval_cases(cases, ctx, i + 1)
            },
            Result::Ok(_) => Result::Err(EvalErrorV::TypeMismatchV),
            Result::Err(er) => Result::Err(er),
        }
    }
}

// ---------------------------------------------------------------------
// The context.
// ---------------------------------------------------------------------

/// A mapping from field path to literal value, supplied by the caller
/// of the evaluator. A later insertion under the same path replaces the
/// earlier one.
pub struct EvalContext {
    entries: Vec<(String, LiteralValue)>,
}

pub open spec fn ctx_map(s: Seq<(String, LiteralValue)>) -> Map<Seq<char>, LitV>
    decreases s.len(),
{
    if s.len() == 0 {
        Map::empty()
    } else {
        ctx_map(s.drop_last()).insert(s.last().0@, lit_view(s.last().1))
    }
}

impl View for EvalContext {
    type V = Map<Seq<char>, LitV>;

    closed spec fn view(&self) -> Map<Seq<char>, LitV> {
        ctx_map(self.entries@)
    }
}

proof fn lemma_ctx_map_found(s: Seq<(String, LiteralValue)>, i: int, k: Seq<char>)
    requires
        0 <= i < s.len(),
        s[i].0@ == k,
        forall|j: int| i < j < s.len() ==> (#[trigger] s[j]).0@ != k,
    ensures
        ctx_map(s).dom().contains(k),
        ctx_map(s)[k] == lit_view(s[i].1),
    decreases s.len(),
{
    if i == s.len() - 1 {
    } else {
        assert(s.drop_last()[i] == s[i]);
        assert(forall|j: int|
            i < j < s.drop_last().len() ==> (#[trigger] s.drop_last()[j]).0@ != k) by {
            assert(forall|j: int| 0 <= j < s.drop_last().len() ==> s.drop_last()[j] == s[j]);
        }
        lemma_ctx_map_found(s.drop_last(), i, k);
    }
}

proof fn lemma_ctx_map_absent(s: Seq<(String, LiteralValue)>, k: Seq<char>)
    requires
        forall|j: int| 0 <= j < s.len() ==> (#[trigger] s[j]).0@ != k,
    ensures
        !ctx_map(s).dom().contains(k),
    decreases s.len(),
{
    if s.len() > 0 {
        assert(forall|j: int| 0 <= j < s.drop_last().len() ==> s.drop_last()[j] == s[j]);
        lemma_ctx_map_absent(s.drop_last(), k);
    }
}

impl EvalContext {
    /// The empty context.
    pub fn new() -> (c: EvalContext)
        ensures
            c@ == Map::<Seq<char>, LitV>::empty(),
    {
        EvalContext { entries: Vec::new() }
    }

    /// Binds `key` to `value`, replacing any earlier binding.
    pub fn insert(&mut self, key: &str, value: LiteralValue)
        requires
            litv_wf(lit_view(value)),
        ensures
            final(self)@ == old(self)@.insert(key@, lit_view(value)),
    {
        let owned: String = key.to_owned();
        self.entries.push((owned, value));
        proof {
            assert(self.entries@.drop_last() =~= old(self).entries@);
        }
    }

    /// The value bound to `key`, where one is.
    pub fn get(&self, key: &str) -> (r: Option<&LiteralValue>)
        ensures
            match r {
                Option::Some(v) => self@.dom().contains(key@) && lit_view(*v) == self@[key@],
                Option::None => !self@.dom().contains(key@),
            },
    {
        let n = self.entries.len();
        let mut i: usize = n;
        while i > 0
            invariant
                i <= n,
                n == self.entries@.len(),
                forall|j: int| i <= j < n ==> (#[trigger] self.entries@[j]).0@ != key@,
            decreases i,
        {
            i = i - 1;
            if string_is(&self.entries[i].0, key) {
                proof {
                    lemma_ctx_map_found(self.entries@, i as int, key@);
                }
                return Some(&self.entries[i].1);
            }
        }
        proof {
            lemma_ctx_map_absent(self.entries@, key@);
        }
        None
    }
}

// ---------------------------------------------------------------------
// The executable evaluator.
// ---------------------------------------------------------------------

impl LiteralValue {
    /// A value equal to `self`.
    pub fn duplicate(&self) -> (r: LiteralValue)
        ensures
            r == *self,
    {
        match self {
            LiteralValue::StringValue(s) => LiteralValue::StringValue(s.clone()),
            LiteralValue::NumberValue(n) => LiteralValue::NumberValue(*n),
            LiteralValue::BooleanValue(b) => LiteralValue::BooleanValue(*b),
        }
    }
}

/// Evaluates an AST node against a context: exactly `spec_eval` on the
/// node's view.
pub fn eval_ast(e: &Expression, ctx: &EvalContext) -> (r: Result<LiteralValue, EvalError>)
    requires
        exprv_wf(expr_view(*e)),
        ctx_wf(ctx@),
    ensures
        eval_res_view(r) == spec_eval(expr_view(*e), ctx@),
        r matches Result::Ok(v) ==> litv_wf(lit_view(v)),
    decreases *e, 1nat, 0nat,
{
    match e {
        Expression::Literal { value, where_modifier } => Ok(value.duplicate()),
        Expression::FieldReference { field_id, where_modifier } => match ctx.get(
            field_id.as_str(),
        ) {
            Some(v) => Ok(v.duplicate()),
            None => Err(EvalError::FieldNotFound(field_id.clone())),
        },
        Expression::Function { function_name, params, where_modifier, group_by_modifier } => {
            proof {
                assert(decreases_to!(*e => params@));
            }
            match eval_params(params, ctx, 0) {
                Ok(args) => apply_builtin(function_name, args),
                Err(er) => Err(er),
            }
        },
        Expression::IfExpression { condition, result, else_result, where_modifier } => {
            match eval_ast(condition, ctx) {
                Ok(LiteralValue::BooleanValue(b)) => if b {
                    eval_ast(result, ctx)
                } else {
                    eval_ast(else_result, ctx)
                },
                Ok(_) => Err(EvalError::TypeMismatch),
                Err(er) => Err(er),
            }
        },
        Expression::CaseExpression { cases, else_result, where_modifier } => {
            proof {
                assert(decreases_to!(*e => cases@));
            }
            match eval_cases(cases, ctx, 0) {
                Ok(Some(v)) => Ok(v),
                Ok(None) => eval_ast(else_result, ctx),
                Err(er) => Err(er),
            }
        },
    }
}

/// Evaluates the parameters from index `i` on, left to right.
fn eval_params(params: &Vec<Expression>, ctx: &EvalContext, i: usize) -> (r: Result<
    Vec<LiteralValue>,
    EvalError,
>)
    requires
        exprsv_wf(exprs_view(params@)),
        ctx_wf(ctx@),
        i <= params@.len(),
    ensures
        match r {
            Result::Ok(vs) => spec_eval_params(exprs_view(params@), ctx@, i as int) == Result::Ok::<
                Seq<LitV>,
                EvalErrorV,
            >(lits_view(vs@)) && forall|j: int| 0 <= j < vs@.len() ==> litv_wf(lit_view(#[trigger] vs@[j])),
            Result::Err(er) => spec_eval_params(exprs_view(params@), ctx@, i as int)
                == Result::Err::<Seq<LitV>, EvalErrorV>(err_view(er)),
        },
    decreases params@, 0nat, params@.len() - i,
{
    if i >= params.len() {
        let out: Vec<LiteralValue> = Vec::new();
        proof {
            assert(lits_view(out@) =~= Seq::<LitV>::empty());
        }
        Ok(out)
    } else {
        proof {
            assert(decreases_to!(params@ => params@[i as int]));
            assert(exprs_view(params@)[i as int] == expr_view(params@[i as int]));
        }
        match eval_ast(&params[i], ctx) {
            Ok(v) => match eval_params(params, ctx, i + 1) {
                Ok(rest) => {
                    let ghost v0 = v;
                    let ghost rest0 = rest@;
                    let mut out: Vec<LiteralValue> = Vec::new();
                    out.push(v);
                    let mut rest = rest;
                    out.append(&mut rest);
                    proof {
                        assert(out@ =~= seq![v0] + rest0);
                        assert(lits_view(out@) =~= seq![lit_view(v0)] + lits_view(rest0));
                    }
                    Ok(out)
                },
                Err(er) => Err(er),
            },
            Err(er) => Err(er),
        }
    }
}

/// Evaluates the branch conditions from index `i` on; the first true
/// one decides.
fn eval_cases(cases: &Vec<CaseBranch>, ctx: &EvalContext, i: usize) -> (r: Result<
    Option<LiteralValue>,
    EvalError,
>)
    requires
        forall|j: int|
            0 <= j < branches_view(cases@).len() ==> exprv_wf(
                #[trigger] branches_view(cases@)[j].condition,
            ) && exprv_wf(branches_view(cases@)[j].result),
        ctx_wf(ctx@),
        i <= cases@.len(),
    ensures
        match r {
            Result::Ok(Option::Some(v)) => spec_eval_cases(branches_view(cases@), ctx@, i as int)
                == Result::Ok::<Option<LitV>, EvalErrorV>(Option::Some(lit_view(v))) && litv_wf(
                lit_view(v),
            ),
            Result::Ok(Option::None) => spec_eval_cases(branches_view(cases@), ctx@, i as int)
                == Result::Ok::<Option<LitV>, EvalErrorV>(Option::None),
            Result::Err(er) => spec_eval_cases(branches_view(cases@), ctx@, i as int)
                == Result::Err::<Option<LitV>, EvalErrorV>(err_view(er)),
        },
    decreases cases@, 0nat, cases@.len() - i,
{
    if i >= cases.len() {
        Ok(None)
    } else {
        proof {
            assert(decreases_to!(cases@ => cases@[i as int]));
            assert(branches_view(cases@)[i as int].condition == expr_view(
                cases@[i as int].condition,
            ));
            assert(branches_view(cases@)[i as int].result == expr_view(cases@[i as int].result));
        }
        match eval_ast(&cases[i].condition, ctx) {
            Ok(LiteralValue::BooleanValue(b)) => if b {
                match eval_ast(&cases[i].result, ctx) {
                    Ok(v) => Ok(Some(v)),
                    Err(er) => Err(er),
                }
            } else {
                eval_cases(cases, ctx, i + 1)
            },
            Ok(_) => Err(EvalError::TypeMismatch),
            Err(er) => Err(er),
        }
    }
}

/// Dispatches a name against the built-in table: exactly `spec_apply`.
fn apply_builtin(name: &String, args: Vec<LiteralValue>) -> (r: Result<LiteralValue, EvalError>)
    requires
        forall|j: int| 0 <= j < args@.len() ==> litv_wf(lit_view(#[trigger] args@[j])),
    ensures
        eval_res_view(r) == spec_apply(name@, lits_view(args@)),
        r matches Result::Ok(v) ==> litv_wf(lit_view(v)),
{
    let arith = string_is(name, "+") || string_is(name, "-") || string_is(name, "*") || string_is(
        name,
        "/",
    );
    if arith {
        if args.len() == 2 {
            match (&args[0], &args[1]) {
                (LiteralValue::NumberValue(a), LiteralValue::NumberValue(b)) => {
                    if string_is(name, "/") && b.num == 0 {
                        Err(EvalError::DivisionByZero)
                    } else {
                        let computed: Option<Rational> = if string_is(name, "+") {
                            a.add(*b)
                        } else if string_is(name, "-") {
                            a.sub(*b)
                        } else if string_is(name, "*") {
                            a.mul(*b)
                        } else {
                            a.div(*b)
                        };
                        match computed {
                            Some(c) => Ok(LiteralValue::NumberValue(c)),
                            None => Err(EvalError::NumericOverflow),
                        }
                    }
                },
                _ => Err(EvalError::TypeMismatch),
            }
        } else {
            Err(EvalError::TypeMismatch)
        }
    } else if string_is(name, "=") || string_is(name, "<>") {
        if args.len() == 2 {
            let same: Option<bool> = match (&args[0], &args[1]) {
                (LiteralValue::StringValue(s1), LiteralValue::StringValue(s2)) => Some(*s1 == *s2),
                (LiteralValue::NumberValue(a), LiteralValue::NumberValue(b)) => Some(
                    a.eq_value(*b),
                ),
                (LiteralValue::BooleanValue(b1), LiteralValue::BooleanValue(b2)) => Some(
                    b1 == b2,
                ),
                _ => None,
            };
            match same {
                Some(eqv) => Ok(
                    LiteralValue::BooleanValue(
                        if string_is(name, "=") {
                            eqv
                        } else {
                            !eqv
                        },
                    ),
                ),
                None => Err(EvalError::TypeMismatch),
            }
        } else {
            Err(EvalError::TypeMismatch)
        }
    } else if string_is(name, "<") || string_is(name, "<=") || string_is(name, ">") || string_is(
        name,
        ">=",
    ) {
        if args.len() == 2 {
            match (&args[0], &args[1]) {
                (LiteralValue::NumberValue(a), LiteralValue::NumberValue(b)) => {
                    let b_out: bool = if string_is(name, "<") {
                        a.lt_value(*b)
                    } else if string_is(name, "<=") {
                        a.lt_value(*b) || a.eq_value(*b)
                    } else if string_is(name, ">") {
                        b.lt_value(*a)
                    } else {
                        b.lt_value(*a) || a.eq_value(*b)
                    };
                    Ok(LiteralValue::BooleanValue(b_out))
                },
                _ => Err(EvalError::TypeMismatch),
            }
        } else {
            Err(EvalError::TypeMismatch)
        }
    } else if string_is(name, "and") || string_is(name, "or") {
        if args.len() == 2 {
            match (&args[0], &args[1]) {
                (LiteralValue::BooleanValue(b1), LiteralValue::BooleanValue(b2)) => Ok(
                    LiteralValue::BooleanValue(
                        if string_is(name, "and") {
                            *b1 && *b2
                        } else {
                            *b1 || *b2
                        },
                    ),
                ),
                _ => Err(EvalError::TypeMismatch),
            }
        } else {
            Err(EvalError::TypeMismatch)
        }
    } else if string_is(name, "not") {
        if args.len() == 1 {
            match &args[0] {
                LiteralValue::BooleanValue(b) => Ok(LiteralValue::BooleanValue(!*b)),
                _ => Err(EvalError::TypeMismatch),
            }
        } else {
            Err(EvalError::TypeMismatch)
        }
    } else {
        Err(EvalError::UnknownFunction(name.clone()))
    }
}

} // verus!
