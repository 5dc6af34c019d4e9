//! The converter: builds a typed AST from a recognized parse tree.
//!
//! Binary levels fold left-associatively into nested two-parameter
//! `Function` nodes; a bracketed `where` or `group by` clause attaches
//! to the primary it qualifies; literals convert by kind, with numbers
//! read into exact 64-bit fractions.
//!
//! The parse tree is assumed well-formed — the grammar already rejected
//! malformed text — so any unrecognized node shape is reported as an
//! internal fault, never as a user-facing syntax error.

use vstd::prelude::*;

use crate::ast::{
    exprs_view, exprsv_wf, expr_view, exprv_wf, grefv_wf, owherev_wf, ogroupv_wf, where_view,
    group_ctx_view, gref_view, grefs_view, branches_view, CaseBranch, CaseBranchV, Expression,
    ExprV, FilterContext, FilterContextV, GroupByContext, GroupByModifier, GroupCtxV, GroupRefV,
    GroupReference, LitV, LiteralValue, WhereModifier, WhereV,
};
use crate::ast::{lemma_expr_view_def, lemma_exprv_wf_def};
use crate::chars::{exec_is_digit, is_digit, text_of};
use crate::grammar::{kw_not, nodes_view, ParseNode, Rule, SNode};
use crate::number::{in_i64, Rational};

verus! {

broadcast use crate::ast::group_ast_views, crate::grammar::group_parse_views;

/// A fault of the converter itself: the parse tree had a shape the
/// grammar cannot produce, or a literal exceeds the machine
/// representation. Distinct from a syntax error.
#[derive(Debug, Clone, Copy, PartialEq, Eq, Structural)]
pub enum ConvertError {
    /// A node shape that no grammar production produces.
    InternalShape,
    /// A numeric literal outside the exact 64-bit fraction range, or a
    /// group index outside the machine's integer range.
    NumberOutOfRange,
}

/// Whether a node's span lies within the source.
pub open spec fn span_ok(s: Seq<char>, n: SNode) -> bool {
    0 <= n.start <= n.end <= s.len()
}

/// The source text a node covers.
pub open spec fn span_text(s: Seq<char>, n: SNode) -> Seq<char> {
    s.subrange(n.start, n.end)
}

// ---------------------------------------------------------------------
// Numeric literals.
// ---------------------------------------------------------------------

/// Reads decimal digits from `i` up to `end`, extending `acc`;
/// stops at the first non-digit. The value must stay within the 64-bit
/// range.
pub open spec fn spec_accum_digits(s: Seq<char>, i: int, end: int, acc: int) -> Result<
    (int, int),
    ConvertError,
>
    decreases end - i,
{
    if !(0 <= i < s.len()) || i >= end || !is_digit(s[i]) {
        Result::Ok((acc, i))
    } else {
        let acc2 = acc * 10 + (s[i] as u32 - 48);
        if acc2 > 0x7fff_ffff_ffff_ffff {
            Result::Err(ConvertError::NumberOutOfRange)
        } else {
            spec_accum_digits(s, i + 1, end, acc2)
        }
    }
}

/// `x * 10^k`, within the 64-bit range.
pub open spec fn spec_pow10_mul(x: int, k: int) -> Result<int, ConvertError>
    decreases (if k >= 0 { k } else { 0 }),
{
    if k <= 0 {
        Result::Ok(x)
    } else if x * 10 > 0x7fff_ffff_ffff_ffff {
        Result::Err(ConvertError::NumberOutOfRange)
    } else {
        spec_pow10_mul(x * 10, k - 1)
    }
}

/// The mantissa of a number literal: its digits (integer and fraction
/// parts together) as one integer, the power of ten the fraction
/// shifts by, and the position after it. The sign is read by the
/// caller.
pub open spec fn spec_mantissa(s: Seq<char>, start: int, end: int) -> Result<
    (int, int, int),
    ConvertError,
> {
    if !(0 <= start < end <= s.len()) {
        Result::Err(ConvertError::InternalShape)
    } else {
        let i0 = if s[start] == '-' {
            start + 1
        } else {
            start
        };
        match spec_accum_digits(s, i0, end, 0) {
            Result::Err(er) => Result::Err(er),
            Result::Ok((m0, p1)) => {
                let has_frac = 0 <= p1 < s.len() && p1 < end && s[p1] == '.';
                match (if has_frac {
                    spec_accum_digits(s, p1 + 1, end, m0)
                } else {
                    Result::Ok((m0, p1))
                }) {
                    Result::Err(er) => Result::Err(er),
                    Result::Ok((m, p2)) => {
                        let frac_len: int = if has_frac {
                            p2 - (p1 + 1)
                        } else {
                            0
                        };
                        match spec_pow10_mul(1, frac_len) {
                            Result::Err(er) => Result::Err(er),
                            Result::Ok(den0) => Result::Ok((m, den0, p2)),
                        }
                    },
                }
            },
        }
    }
}

/// The optional exponent of a number literal from `p2` on, applied to
/// the mantissa `m / den0`: a positive exponent scales the numerator, a
/// negative one the denominator, each within the 64-bit range.
pub open spec fn spec_exponent(
    s: Seq<char>,
    p2: int,
    end: int,
    m: int,
    den0: int,
    neg: bool,
) -> Result<(int, int), ConvertError> {
    let has_exp = 0 <= p2 < s.len() && p2 < end && (s[p2] == 'e' || s[p2] == 'E');
    if !has_exp {
        if p2 == end {
            Result::Ok(
                (if neg {
                    -m
                } else {
                    m
                }, den0),
            )
        } else {
            Result::Err(ConvertError::InternalShape)
        }
    } else {
        let exp_neg = 0 <= p2 + 1 < s.len() && p2 + 1 < end && s[p2 + 1] == '-';
        let q = if 0 <= p2 + 1 < s.len() && p2 + 1 < end && (s[p2 + 1] == '+' || s[p2 + 1]
            == '-') {
            p2 + 2
        } else {
            p2 + 1
        };
        match spec_accum_digits(s, q, end, 0) {
            Result::Err(er) => Result::Err(er),
            Result::Ok((ev, p3)) => {
                if p3 != end || p3 == q {
                    Result::Err(ConvertError::InternalShape)
                } else if ev > 10000 {
                    Result::Err(ConvertError::NumberOutOfRange)
                } else if exp_neg {
                    match spec_pow10_mul(den0, ev) {
                        Result::Err(er) => Result::Err(er),
                        Result::Ok(den) => Result::Ok(
                            (if neg {
                                -m
                            } else {
                                m
                            }, den),
                        ),
                    }
                } else {
                    match spec_pow10_mul(m, ev) {
                        Result::Err(er) => Result::Err(er),
                        Result::Ok(num) => Result::Ok(
                            (if neg {
                                -num
                            } else {
                                num
                            }, den0),
                        ),
                    }
                }
            },
        }
    }
}

/// The exact fraction a number literal denotes: sign, integer part,
/// optional fraction, optional exponent. `Err` where the fraction does
/// not fit 64 bits.
pub open spec fn spec_number_value(s: Seq<char>, start: int, end: int) -> Result<
    (int, int),
    ConvertError,
> {
    if !(0 <= start < end <= s.len()) {
        Result::Err(ConvertError::InternalShape)
    } else {
        match spec_mantissa(s, start, end) {
            Result::Err(er) => Result::Err(er),
            Result::Ok((m, den0, p2)) => spec_exponent(s, p2, end, m, den0, s[start] == '-'),
        }
    }
}

// ---------------------------------------------------------------------
// String literals.
// ---------------------------------------------------------------------

/// The characters a string literal's content denotes, from `i` up to
/// `end` (exclusive of the closing quote): `\` escapes the following
/// character, with `\n` and `\t` decoded, any other escaped character
/// standing for itself.
pub open spec fn spec_decode_string(s: Seq<char>, i: int, end: int) -> Seq<char>
    decreases end - i,
{
    if !(0 <= i < s.len()) || i >= end {
        Seq::empty()
    } else if s[i] == '\\' && i + 1 < end && 0 <= i + 1 < s.len() {
        let c = s[i + 1];
        let d = if c == 'n' {
            '\n'
        } else if c == 't' {
            '\t'
        } else {
            c
        };
        seq![d] + spec_decode_string(s, i + 2, end)
    } else {
        seq![s[i]] + spec_decode_string(s, i + 1, end)
    }
}

// ---------------------------------------------------------------------
// Conversion.
// ---------------------------------------------------------------------

/// `e` with the `where` modifier attached.
pub open spec fn spec_attach_where(e: ExprV, w: WhereV) -> ExprV {
    match e {
        ExprV::LitE { value, wm } => ExprV::LitE { value, wm: Option::Some(w) },
        ExprV::FieldE { field_id, wm } => ExprV::FieldE { field_id, wm: Option::Some(w) },
        ExprV::FuncE { name, params, wm, gm } => ExprV::FuncE {
            name,
            params,
            wm: Option::Some(w),
            gm,
        },
        ExprV::IfE { cond, thn, els, wm } => ExprV::IfE { cond, thn, els, wm: Option::Some(w) },
        ExprV::CaseE { cases, els, wm } => ExprV::CaseE { cases, els, wm: Option::Some(w) },
    }
}

/// What an AST node converts to. The converter is total: a node shape
/// outside the grammar's productions is an internal fault.
pub open spec fn spec_convert(s: Seq<char>, n: SNode) -> Result<ExprV, ConvertError>
    decreases n, 2nat, 0nat,
{
    match n.rule {
        Rule::FieldRef => if span_ok(s, n) {
            Result::Ok(ExprV::FieldE { field_id: span_text(s, n), wm: Option::None })
        } else {
            Result::Err(ConvertError::InternalShape)
        },
        Rule::NumberTok => match spec_number_value(s, n.start, n.end) {
            Result::Ok((num, den)) => if in_i64(num) && in_i64(den) && den >= 1 {
                Result::Ok(
                    ExprV::LitE { value: LitV::NumV { num, den }, wm: Option::None },
                )
            } else {
                Result::Err(ConvertError::NumberOutOfRange)
            },
            Result::Err(er) => Result::Err(er),
        },
        Rule::StringTok => if span_ok(s, n) && n.end - n.start >= 2 {
            Result::Ok(
                ExprV::LitE {
                    value: LitV::StrV { chars: spec_decode_string(s, n.start + 1, n.end - 1) },
                    wm: Option::None,
                },
            )
        } else {
            Result::Err(ConvertError::InternalShape)
        },
        Rule::BoolTok => if span_ok(s, n) && n.end - n.start == 4 {
            Result::Ok(ExprV::LitE { value: LitV::BoolV { b: true }, wm: Option::None })
        } else if span_ok(s, n) && n.end - n.start == 5 {
            Result::Ok(ExprV::LitE { value: LitV::BoolV { b: false }, wm: Option::None })
        } else {
            Result::Err(ConvertError::InternalShape)
        },
        Rule::BinaryChain => if n.children.len() >= 3 && n.children.len() % 2 == 1 {
            match spec_convert(s, n.children[0]) {
                Result::Ok(first) => spec_convert_chain(s, n.children, first, 1),
                Result::Err(er) => Result::Err(er),
            }
        } else {
            Result::Err(ConvertError::InternalShape)
        },
        Rule::NotExpr => if n.children.len() == 1 {
            match spec_convert(s, n.children[0]) {
                Result::Ok(c) => Result::Ok(
                    ExprV::FuncE {
                        name: kw_not(),
                        params: seq![c],
                        wm: Option::None,
                        gm: Option::None,
                    },
                ),
                Result::Err(er) => Result::Err(er),
            }
        } else {
            Result::Err(ConvertError::InternalShape)
        },
        Rule::FuncCall => if n.children.len() >= 1 && n.children[0].rule == Rule::Ident && span_ok(
            s,
            n.children[0],
        ) {
            match spec_convert_list(s, n.children, 1) {
                Result::Ok(params) => Result::Ok(
                    ExprV::FuncE {
                        name: span_text(s, n.children[0]),
                        params,
                        wm: Option::None,
                        gm: Option::None,
                    },
                ),
                Result::Err(er) => Result::Err(er),
            }
        } else {
            Result::Err(ConvertError::InternalShape)
        },
        Rule::IfNode => if n.children.len() == 3 {
            match (spec_convert(s, n.children[0]), spec_convert(s, n.children[1]), spec_convert(
                s,
                n.children[2],
            )) {
                (Result::Ok(c), Result::Ok(t), Result::Ok(e)) => Result::Ok(
                    ExprV::IfE {
                        cond: Box::new(c),
                        thn: Box::new(t),
                        els: Box::new(e),
                        wm: Option::None,
                    },
                ),
                (Result::Err(er), _, _) => Result::Err(er),
                (_, Result::Err(er), _) => Result::Err(er),
                (_, _, Result::Err(er)) => Result::Err(er),
            }
        } else {
            Result::Err(ConvertError::InternalShape)
        },
        Rule::CaseNode => if n.children.len() >= 2 {
            match spec_convert_cases(s, n.children, 0) {
                Result::Ok(cases) => match spec_convert(s, n.children[n.children.len() - 1]) {
                    Result::Ok(e) => Result::Ok(
                        ExprV::CaseE { cases, els: Box::new(e), wm: Option::None },
                    ),
                    Result::Err(er) => Result::Err(er),
                },
                Result::Err(er) => Result::Err(er),
            }
        } else {
            Result::Err(ConvertError::InternalShape)
        },
        Rule::Modified => if n.children.len() == 2 && n.children[1].rule == Rule::WhereNode {
            match (spec_convert(s, n.children[0]), spec_convert_where(s, n.children[1])) {
                (Result::Ok(core), Result::Ok(w)) => Result::Ok(spec_attach_where(core, w)),
                (Result::Err(er), _) => Result::Err(er),
                (_, Result::Err(er)) => Result::Err(er),
            }
        } else if n.children.len() == 2 && n.children[1].rule == Rule::GroupNode {
            match (spec_convert(s, n.children[0]), spec_convert_group(s, n.children[1])) {
                (Result::Ok(ExprV::FuncE { name, params, wm, gm }), Result::Ok(g)) => Result::Ok(
                    ExprV::FuncE { name, params, wm, gm: Option::Some(g) },
                ),
                (Result::Ok(_), Result::Ok(g)) => Result::Err(ConvertError::InternalShape),
                (Result::Err(er), _) => Result::Err(er),
                (_, Result::Err(er)) => Result::Err(er),
            }
        } else if n.children.len() == 3 && n.children[1].rule == Rule::GroupNode && n.children[2].rule
            == Rule::WhereNode {
            match (spec_convert(s, n.children[0]), spec_convert_group(s, n.children[1]),
            spec_convert_where(s, n.children[2])) {
                (
                    Result::Ok(ExprV::FuncE { name, params, wm, gm }),
                    Result::Ok(g),
                    Result::Ok(w),
                ) => Result::Ok(
                    ExprV::FuncE {
                        name,
                        params,
                        wm: Option::Some(w),
                        gm: Option::Some(g),
                    },
                ),
                (Result::Ok(_), Result::Ok(_), Result::Ok(_)) => Result::Err(
                    ConvertError::InternalShape,
                ),
                (Result::Err(er), _, _) => Result::Err(er),
                (_, Result::Err(er), _) => Result::Err(er),
                (_, _, Result::Err(er)) => Result::Err(er),
            }
        } else {
            Result::Err(ConvertError::InternalShape)
        },
        _ => Result::Err(ConvertError::InternalShape),
    }
}

/// Folds `(operator, operand)` pairs from index `i` on into a
/// left-leaning tree: each pair wraps the accumulated left side in a
/// two-parameter `Function` named by the operator token.
pub open spec fn spec_convert_chain(s: Seq<char>, ch: Seq<SNode>, acc: ExprV, i: int) -> Result<
    ExprV,
    ConvertError,
>
    decreases ch, 2nat, (if i >= 0 { ch.len() + 1 - i } else { 0 }),
{
    if i >= ch.len() {
        Result::Ok(acc)
    } else if i < 0 || i + 1 >= ch.len() {
        Result::Err(ConvertError::InternalShape)
    } else if ch[i].rule == Rule::OpToken && span_ok(s, ch[i]) {
        match spec_convert(s, ch[i + 1]) {
            Result::Ok(rhs) => spec_convert_chain(
                s,
                ch,
                ExprV::FuncE {
                    name: span_text(s, ch[i]),
                    params: seq![acc, rhs],
                    wm: Option::None,
                    gm: Option::None,
                },
                i + 2,
            ),
            Result::Err(er) => Result::Err(er),
        }
    } else {
        Result::Err(ConvertError::InternalShape)
    }
}

/// The conversions of the children from index `i` on, in order.
pub open spec fn spec_convert_list(s: Seq<char>, ch: Seq<SNode>, i: int) -> Result<
    Seq<ExprV>,
    ConvertError,
>
    decreases ch, 2nat, (if i >= 0 { ch.len() + 1 - i } else { 0 }),
{
    if i < 0 {
        Result::Err(ConvertError::InternalShape)
    } else if i >= ch.len() {
        Result::Ok(Seq::empty())
    } else {
        match spec_convert(s, ch[i]) {
            Result::Ok(e) => match spec_convert_list(s, ch, i + 1) {
                Result::Ok(rest) => Result::Ok(seq![e] + rest),
                Result::Err(er) => Result::Err(er),
            },
            Result::Err(er) => Result::Err(er),
        }
    }
}

/// The `CASE` branches among the children, from index `i` up to the
/// last child exclusive (the `ELSE` expression).
pub open spec fn spec_convert_cases(s: Seq<char>, ch: Seq<SNode>, i: int) -> Result<
    Seq<CaseBranchV>,
    ConvertError,
>
    decreases ch, 2nat, (if i >= 0 { ch.len() + 1 - i } else { 0 }),
{
    if i < 0 {
        Result::Err(ConvertError::InternalShape)
    } else if i >= ch.len() - 1 {
        Result::Ok(Seq::empty())
    } else if ch[i].rule == Rule::CaseWhen && ch[i].children.len() == 2 {
        match (spec_convert(s, ch[i].children[0]), spec_convert(s, ch[i].children[1])) {
            (Result::Ok(c), Result::Ok(r)) => match spec_convert_cases(s, ch, i + 1) {
                Result::Ok(rest) => Result::Ok(seq![CaseBranchV { condition: c, result: r }] + rest),
                Result::Err(er) => Result::Err(er),
            },
            (Result::Err(er), _) => Result::Err(er),
            (_, Result::Err(er)) => Result::Err(er),
        }
    } else {
        Result::Err(ConvertError::InternalShape)
    }
}

/// What a `where` clause converts to: the first child decides the
/// filter context where it is one of the keyword forms, and is the
/// first additional filter otherwise; every remaining child is an
/// additional filter, in source order.
pub open spec fn spec_convert_where(s: Seq<char>, n: SNode) -> Result<WhereV, ConvertError>
    decreases n, 2nat, 0nat,
{
    if n.rule == Rule::WhereNode && n.children.len() >= 1 {
        let first = n.children[0];
        if first.rule == Rule::AllowFilters {
            match (spec_convert_list(s, first.children, 0), spec_convert_list(s, n.children, 1)) {
                (Result::Ok(fields), Result::Ok(filters)) => Result::Ok(
                    WhereV {
                        filter_context: Option::Some(FilterContextV::AllowedV { fields }),
                        additional_filters: filters,
                    },
                ),
                (Result::Err(er), _) => Result::Err(er),
                (_, Result::Err(er)) => Result::Err(er),
            }
        } else if first.rule == Rule::IgnoreAllFilters {
            match spec_convert_list(s, n.children, 1) {
                Result::Ok(filters) => Result::Ok(
                    WhereV {
                        filter_context: Option::Some(FilterContextV::AllIgnoredV),
                        additional_filters: filters,
                    },
                ),
                Result::Err(er) => Result::Err(er),
            }
        } else if first.rule == Rule::IgnoreFilters {
            match (spec_convert_list(s, first.children, 0), spec_convert_list(s, n.children, 1)) {
                (Result::Ok(fields), Result::Ok(filters)) => Result::Ok(
                    WhereV {
                        filter_context: Option::Some(FilterContextV::IgnoredV { fields }),
                        additional_filters: filters,
                    },
                ),
                (Result::Err(er), _) => Result::Err(er),
                (_, Result::Err(er)) => Result::Err(er),
            }
        } else {
            match spec_convert_list(s, n.children, 0) {
                Result::Ok(filters) => Result::Ok(
                    WhereV { filter_context: Option::None, additional_filters: filters },
                ),
                Result::Err(er) => Result::Err(er),
            }
        }
    } else {
        Result::Err(ConvertError::InternalShape)
    }
}

/// The integer a digit span denotes, within the machine's range.
pub open spec fn spec_index_value(s: Seq<char>, start: int, end: int) -> Result<
    int,
    ConvertError,
> {
    match spec_accum_digits(s, start, end, 0) {
        Result::Ok((v, p)) => if p == end && start < end && v <= usize::MAX {
            Result::Ok(v)
        } else {
            Result::Err(ConvertError::InternalShape)
        },
        Result::Err(er) => Result::Err(er),
    }
}

/// What a `group by` clause converts to.
pub open spec fn spec_convert_group(s: Seq<char>, n: SNode) -> Result<GroupCtxV, ConvertError>
    decreases n, 2nat, 0nat,
{
    if n.rule == Rule::GroupNode && n.children.len() == 1 && n.children[0].rule
        == Rule::AllGroupsTok {
        Result::Ok(GroupCtxV::AllGroupsV)
    } else if n.rule == Rule::GroupNode && n.children.len() >= 1 {
        match spec_convert_grefs(s, n.children, 0) {
            Result::Ok(groups) => Result::Ok(GroupCtxV::IncludedV { groups }),
            Result::Err(er) => Result::Err(er),
        }
    } else {
        Result::Err(ConvertError::InternalShape)
    }
}

/// The grouping references among the children from index `i` on.
/// What one grouping reference converts to: `group(N)` by position,
/// any other expression as an explicit dimension.
pub open spec fn spec_convert_gref(s: Seq<char>, n: SNode) -> Result<GroupRefV, ConvertError>
    decreases n, 3nat, 0nat,
{
    if n.rule == Rule::QueryGroupRef {
        if n.children.len() == 1 && n.children[0].rule == Rule::NumberTok && 0 <= n.children[0].start
            <= s.len() && n.children[0].end <= s.len() {
            match spec_index_value(s, n.children[0].start, n.children[0].end) {
                Result::Ok(v) => Result::Ok(GroupRefV::QueryV { index: v }),
                Result::Err(er) => Result::Err(er),
            }
        } else {
            Result::Err(ConvertError::InternalShape)
        }
    } else {
        match spec_convert(s, n) {
            Result::Ok(e) => Result::Ok(GroupRefV::FieldV { field: Box::new(e) }),
            Result::Err(er) => Result::Err(er),
        }
    }
}

pub open spec fn spec_convert_grefs(s: Seq<char>, ch: Seq<SNode>, i: int) -> Result<
    Seq<GroupRefV>,
    ConvertError,
>
    decreases ch, 4nat, (if i >= 0 { ch.len() + 1 - i } else { 0 }),
{
    if i < 0 {
        Result::Err(ConvertError::InternalShape)
    } else if i >= ch.len() {
        Result::Ok(Seq::empty())
    } else {
        match spec_convert_gref(s, ch[i]) {
            Result::Ok(g) => match spec_convert_grefs(s, ch, i + 1) {
                Result::Ok(rest) => Result::Ok(seq![g] + rest),
                Result::Err(er) => Result::Err(er),
            },
            Result::Err(er) => Result::Err(er),
        }
    }
}

} // verus!

verus! {

// ---------------------------------------------------------------------
// The executable converter. Each function computes exactly its
// specification function.
// ---------------------------------------------------------------------

fn accum_digits(s: &Vec<char>, i: usize, end: usize, acc: i64) -> (r: Result<
    (i64, usize),
    ConvertError,
>)
    requires
        i <= s@.len(),
        end <= s@.len(),
        acc >= 0,
    ensures
        match r {
            Result::Ok((v, p)) => spec_accum_digits(s@, i as int, end as int, acc as int)
                == Result::Ok::<(int, int), ConvertError>((v as int, p as int)) && v >= 0 && i <= p
                <= s@.len(),
            Result::Err(er) => spec_accum_digits(s@, i as int, end as int, acc as int)
                == Result::Err::<(int, int), ConvertError>(er),
        },
    decreases end - i,
{
    if i >= end || i >= s.len() || !exec_is_digit(s[i]) {
        Ok((acc, i))
    } else {
        let cu: u32 = s[i] as u32;
        let d: i64 = cu as i64 - 48;
        let a2: i128 = acc as i128 * 10 + d as i128;
        if a2 > 0x7fff_ffff_ffff_ffffi128 {
            Err(ConvertError::NumberOutOfRange)
        } else {
            accum_digits(s, i + 1, end, a2 as i64)
        }
    }
}

fn pow10_mul(x: i64, k: usize) -> (r: Result<i64, ConvertError>)
    requires
        x >= 0,
    ensures
        match r {
            Result::Ok(v) => spec_pow10_mul(x as int, k as int) == Result::Ok::<int, ConvertError>(
                v as int,
            ) && v >= 0 && (x >= 1 ==> v >= 1),
            Result::Err(er) => spec_pow10_mul(x as int, k as int) == Result::Err::<
                int,
                ConvertError,
            >(er),
        },
    decreases k,
{
    if k == 0 {
        Ok(x)
    } else if x as i128 * 10 > 0x7fff_ffff_ffff_ffffi128 {
        Err(ConvertError::NumberOutOfRange)
    } else {
        pow10_mul(x * 10, k - 1)
    }
}

fn exec_mantissa(s: &Vec<char>, start: usize, end: usize) -> (r: Result<
    (i64, i64, usize),
    ConvertError,
>)
    requires
        end <= s@.len(),
    ensures
        match r {
            Result::Ok((m, den0, p2)) => spec_mantissa(s@, start as int, end as int)
                == Result::Ok::<(int, int, int), ConvertError>(
                (m as int, den0 as int, p2 as int),
            ) && m >= 0 && den0 >= 1 && p2 <= s@.len(),
            Result::Err(er) => spec_mantissa(s@, start as int, end as int) == Result::Err::<
                (int, int, int),
                ConvertError,
            >(er),
        },
{
    if !(start < end) {
        return Err(ConvertError::InternalShape);
    }
    let i0: usize = if s[start] == '-' {
        start + 1
    } else {
        start
    };
    let (m0, p1) = match accum_digits(s, i0, end, 0) {
        Ok(v) => v,
        Err(er) => {
            return Err(er);
        },
    };
    let has_frac = p1 < s.len() && p1 < end && s[p1] == '.';
    let (m, p2) = if has_frac {
        match accum_digits(s, p1 + 1, end, m0) {
            Ok(v) => v,
            Err(er) => {
                return Err(er);
            },
        }
    } else {
        (m0, p1)
    };
    let frac_len: usize = if has_frac {
        p2 - (p1 + 1)
    } else {
        0
    };
    match pow10_mul(1, frac_len) {
        Ok(den0) => Ok((m, den0, p2)),
        Err(er) => Err(er),
    }
}

fn exec_exponent(s: &Vec<char>, p2: usize, end: usize, m: i64, den0: i64, neg: bool) -> (r: Result<
    Rational,
    ConvertError,
>)
    requires
        end <= s@.len(),
        p2 <= s@.len(),
        m >= 0,
        den0 >= 1,
    ensures
        match r {
            Result::Ok(v) => spec_exponent(s@, p2 as int, end as int, m as int, den0 as int, neg)
                == Result::Ok::<(int, int), ConvertError>((v.num as int, v.den as int)) && v.den
                >= 1,
            Result::Err(er) => spec_exponent(s@, p2 as int, end as int, m as int, den0 as int, neg)
                == Result::Err::<(int, int), ConvertError>(er),
        },
{
    let has_exp = p2 < s.len() && p2 < end && (s[p2] == 'e' || s[p2] == 'E');
    if !has_exp {
        if p2 == end {
            let num = if neg {
                -m
            } else {
                m
            };
            Ok(Rational { num, den: den0 })
        } else {
            Err(ConvertError::InternalShape)
        }
    } else {
        let exp_neg = p2 + 1 < s.len() && p2 + 1 < end && s[p2 + 1] == '-';
        let q: usize = if p2 + 1 < s.len() && p2 + 1 < end && (s[p2 + 1] == '+' || s[p2 + 1]
            == '-') {
            p2 + 2
        } else {
            p2 + 1
        };
        if q > s.len() {
            return Err(ConvertError::InternalShape);
        }
        let (ev, p3) = match accum_digits(s, q, end, 0) {
            Ok(v) => v,
            Err(er) => {
                return Err(er);
            },
        };
        if p3 != end || p3 == q {
            Err(ConvertError::InternalShape)
        } else if ev > 10000 {
            Err(ConvertError::NumberOutOfRange)
        } else if exp_neg {
            match pow10_mul(den0, ev as usize) {
                Ok(den) => {
                    let num = if neg {
                        -m
                    } else {
                        m
                    };
                    Ok(Rational { num, den })
                },
                Err(er) => Err(er),
            }
        } else {
            match pow10_mul(m, ev as usize) {
                Ok(num0) => {
                    let num = if neg {
                        -num0
                    } else {
                        num0
                    };
                    Ok(Rational { num, den: den0 })
                },
                Err(er) => Err(er),
            }
        }
    }
}

fn number_value(s: &Vec<char>, start: usize, end: usize) -> (r: Result<Rational, ConvertError>)
    requires
        end <= s@.len(),
    ensures
        match r {
            Result::Ok(v) => spec_number_value(s@, start as int, end as int) == Result::Ok::<
                (int, int),
                ConvertError,
            >((v.num as int, v.den as int)) && v.den >= 1,
            Result::Err(er) => spec_number_value(s@, start as int, end as int) == Result::Err::<
                (int, int),
                ConvertError,
            >(er),
        },
{
    if !(start < end) {
        return Err(ConvertError::InternalShape);
    }
    let neg = s[start] == '-';
    match exec_mantissa(s, start, end) {
        Ok((m, den0, p2)) => exec_exponent(s, p2, end, m, den0, neg),
        Err(er) => Err(er),
    }
}

fn index_value(s: &Vec<char>, start: usize, end: usize) -> (r: Result<usize, ConvertError>)
    requires
        start <= s@.len(),
        end <= s@.len(),
    ensures
        match r {
            Result::Ok(v) => spec_index_value(s@, start as int, end as int) == Result::Ok::<
                int,
                ConvertError,
            >(v as int),
            Result::Err(er) => spec_index_value(s@, start as int, end as int) == Result::Err::<
                int,
                ConvertError,
            >(er),
        },
{
    match accum_digits(s, start, end, 0) {
        Ok((v, p)) => {
            if p == end && start < end && v as u128 <= usize::MAX as u128 {
                Ok(v as usize)
            } else {
                Err(ConvertError::InternalShape)
            }
        },
        Err(er) => Err(er),
    }
}

fn decode_chars(s: &Vec<char>, i: usize, end: usize) -> (v: Vec<char>)
    requires
        i <= s@.len(),
        end <= s@.len(),
    ensures
        v@ == spec_decode_string(s@, i as int, end as int),
    decreases end - i,
{
    if i >= end || i >= s.len() {
        Vec::new()
    } else if s[i] == '\\' && i + 1 < end {
        let c = s[i + 1];
        let d: char = if c == 'n' {
            '\n'
        } else if c == 't' {
            '\t'
        } else {
            c
        };
        let mut v: Vec<char> = Vec::new();
        v.push(d);
        let mut rest = decode_chars(s, i + 2, end);
        let ghost r0 = rest@;
        v.append(&mut rest);
        proof {
            assert(v@ =~= seq![v@[0]] + r0);
        }
        v
    } else {
        let mut v: Vec<char> = Vec::new();
        v.push(s[i]);
        let mut rest = decode_chars(s, i + 1, end);
        let ghost r0 = rest@;
        v.append(&mut rest);
        proof {
            assert(v@ =~= seq![v@[0]] + r0);
        }
        v
    }
}

/// `e` with the `where` modifier attached; the modifier qualifies only
/// this outermost node.
fn attach_where(e: Expression, w: WhereModifier) -> (r: Expression)
    ensures
        expr_view(r) == spec_attach_where(expr_view(e), where_view(w)),
        exprv_wf(expr_view(e)) && owherev_wf(Option::Some(where_view(w))) ==> exprv_wf(
            expr_view(r),
        ),
{
    let ghost e0 = e;
    let r = match e {
        Expression::Literal { value, where_modifier } => Expression::Literal {
            value,
            where_modifier: Some(w),
        },
        Expression::FieldReference { field_id, where_modifier } => Expression::FieldReference {
            field_id,
            where_modifier: Some(w),
        },
        Expression::Function { function_name, params, where_modifier, group_by_modifier } => Expression::Function {
            function_name,
            params,
            where_modifier: Some(w),
            group_by_modifier,
        },
        Expression::IfExpression { condition, result, else_result, where_modifier } => Expression::IfExpression {
            condition,
            result,
            else_result,
            where_modifier: Some(w),
        },
        Expression::CaseExpression { cases, else_result, where_modifier } => Expression::CaseExpression {
            cases,
            else_result,
            where_modifier: Some(w),
        },
    };
    proof {
        lemma_expr_view_def(e0);
        lemma_expr_view_def(r);
        lemma_exprv_wf_def(expr_view(e0));
        lemma_exprv_wf_def(expr_view(r));
    }
    r
}

/// Builds the AST an expression node denotes: exactly `spec_convert`.
/// Builds the AST an expression node denotes: exactly `spec_convert`.
#[verifier::rlimit(30)]
#[verifier::spinoff_prover]
pub fn convert_to_ast(s: &Vec<char>, node: &ParseNode) -> (r: Result<Expression, ConvertError>)
    ensures
        match r {
            Result::Ok(e) => spec_convert(s@, node@) == Result::Ok::<ExprV, ConvertError>(
                expr_view(e),
            ) && exprv_wf(expr_view(e)),
            Result::Err(er) => spec_convert(s@, node@) == Result::Err::<ExprV, ConvertError>(er),
        },
    decreases *node, 2nat, 0nat,
{
    match node.rule {
        Rule::FieldRef => convert_field_node(s, node),
        Rule::NumberTok => convert_number_node(s, node),
        Rule::StringTok => convert_string_node(s, node),
        Rule::BoolTok => convert_bool_node(s, node),
        Rule::BinaryChain => {
            if node.children.len() >= 3 && node.children.len() % 2 == 1 {
                proof {
                    assert(decreases_to!(*node => node.children@[0]));
                }
                match convert_to_ast(s, &node.children[0]) {
                    Ok(first) => convert_chain(s, &node.children, first, 1),
                    Err(er) => Err(er),
                }
            } else {
                Err(ConvertError::InternalShape)
            }
        },
        Rule::NotExpr => convert_not_node(s, node),
        Rule::FuncCall => convert_func_node(s, node),
        Rule::IfNode => convert_if_node(s, node),
        Rule::CaseNode => convert_case_node(s, node),
        Rule::Modified => convert_modified(s, node),
        _ => Err(ConvertError::InternalShape),
    }
}

#[verifier::rlimit(30)]
#[verifier::spinoff_prover]
fn convert_field_node(s: &Vec<char>, node: &ParseNode) -> (r: Result<Expression, ConvertError>)
    requires
        node@.rule == Rule::FieldRef,
    ensures
        match r {
            Result::Ok(e) => spec_convert(s@, node@) == Result::Ok::<ExprV, ConvertError>(
                expr_view(e),
            ) && exprv_wf(expr_view(e)),
            Result::Err(er) => spec_convert(s@, node@) == Result::Err::<ExprV, ConvertError>(er),
        },
{
    if node.start <= node.end && node.end <= s.len() {
        let text = text_of(s, node.start, node.end);
        let out = Expression::FieldReference { field_id: text, where_modifier: None };
        proof {
            lemma_expr_view_def(out);
            lemma_exprv_wf_def(expr_view(out));
        }
        Ok(out)
    } else {
        Err(ConvertError::InternalShape)
    }
}

#[verifier::rlimit(30)]
#[verifier::spinoff_prover]
fn convert_number_node(s: &Vec<char>, node: &ParseNode) -> (r: Result<Expression, ConvertError>)
    requires
        node@.rule == Rule::NumberTok,
    ensures
        match r {
            Result::Ok(e) => spec_convert(s@, node@) == Result::Ok::<ExprV, ConvertError>(
                expr_view(e),
            ) && exprv_wf(expr_view(e)),
            Result::Err(er) => spec_convert(s@, node@) == Result::Err::<ExprV, ConvertError>(er),
        },
{
    if node.end <= s.len() {
        match number_value(s, node.start, node.end) {
            Ok(v) => {
                let out = Expression::Literal {
                    value: LiteralValue::NumberValue(v),
                    where_modifier: None,
                };
                proof {
                    lemma_expr_view_def(out);
                    lemma_exprv_wf_def(expr_view(out));
                }
                Ok(out)
            },
            Err(er) => Err(er),
        }
    } else {
        Err(ConvertError::InternalShape)
    }
}

#[verifier::rlimit(30)]
#[verifier::spinoff_prover]
fn convert_string_node(s: &Vec<char>, node: &ParseNode) -> (r: Result<Expression, ConvertError>)
    requires
        node@.rule == Rule::StringTok,
    ensures
        match r {
            Result::Ok(e) => spec_convert(s@, node@) == Result::Ok::<ExprV, ConvertError>(
                expr_view(e),
            ) && exprv_wf(expr_view(e)),
            Result::Err(er) => spec_convert(s@, node@) == Result::Err::<ExprV, ConvertError>(er),
        },
{
    if node.start <= node.end && node.end <= s.len() && node.end - node.start >= 2 {
        let content = decode_chars(s, node.start + 1, node.end - 1);
        let text = text_of(&content, 0, content.len());
        proof {
            assert(text@ =~= content@);
        }
        let out = Expression::Literal {
            value: LiteralValue::StringValue(text),
            where_modifier: None,
        };
        proof {
            lemma_expr_view_def(out);
            lemma_exprv_wf_def(expr_view(out));
        }
        Ok(out)
    } else {
        Err(ConvertError::InternalShape)
    }
}

#[verifier::rlimit(30)]
#[verifier::spinoff_prover]
fn convert_bool_node(s: &Vec<char>, node: &ParseNode) -> (r: Result<Expression, ConvertError>)
    requires
        node@.rule == Rule::BoolTok,
    ensures
        match r {
            Result::Ok(e) => spec_convert(s@, node@) == Result::Ok::<ExprV, ConvertError>(
                expr_view(e),
            ) && exprv_wf(expr_view(e)),
            Result::Err(er) => spec_convert(s@, node@) == Result::Err::<ExprV, ConvertError>(er),
        },
{
    if node.start <= node.end && node.end <= s.len() && node.end - node.start == 4 {
        let out = Expression::Literal {
            value: LiteralValue::BooleanValue(true),
            where_modifier: None,
        };
        proof {
            lemma_expr_view_def(out);
            lemma_exprv_wf_def(expr_view(out));
        }
        Ok(out)
    } else if node.start <= node.end && node.end <= s.len() && node.end - node.start == 5 {
        let out = Expression::Literal {
            value: LiteralValue::BooleanValue(false),
            where_modifier: None,
        };
        proof {
            lemma_expr_view_def(out);
            lemma_exprv_wf_def(expr_view(out));
        }
        Ok(out)
    } else {
        Err(ConvertError::InternalShape)
    }
}

#[verifier::rlimit(30)]
#[verifier::spinoff_prover]
fn convert_not_node(s: &Vec<char>, node: &ParseNode) -> (r: Result<Expression, ConvertError>)
    requires
        node@.rule == Rule::NotExpr,
    ensures
        match r {
            Result::Ok(e) => spec_convert(s@, node@) == Result::Ok::<ExprV, ConvertError>(
                expr_view(e),
            ) && exprv_wf(expr_view(e)),
            Result::Err(er) => spec_convert(s@, node@) == Result::Err::<ExprV, ConvertError>(er),
        },
    decreases *node, 1nat, 0nat,
{
    if node.children.len() == 1 {
        proof {
            assert(decreases_to!(*node => node.children@[0]));
        }
        match convert_to_ast(s, &node.children[0]) {
            Ok(c) => {
                let ghost c0 = expr_view(c);
                let mut params: Vec<Expression> = Vec::new();
                params.push(c);
                let name = not_name();
                let e = Expression::Function {
                    function_name: name,
                    params,
                    where_modifier: None,
                    group_by_modifier: None,
                };
                proof {
                    lemma_expr_view_def(e);
                    assert(exprs_view(e->Function_params@) =~= seq![c0]);
                    lemma_exprv_wf_def(expr_view(e));
                }
                Ok(e)
            },
            Err(er) => Err(er),
        }
    } else {
        Err(ConvertError::InternalShape)
    }
}

#[verifier::rlimit(30)]
#[verifier::spinoff_prover]
fn convert_func_node(s: &Vec<char>, node: &ParseNode) -> (r: Result<Expression, ConvertError>)
    requires
        node@.rule == Rule::FuncCall,
    ensures
        match r {
            Result::Ok(e) => spec_convert(s@, node@) == Result::Ok::<ExprV, ConvertError>(
                expr_view(e),
            ) && exprv_wf(expr_view(e)),
            Result::Err(er) => spec_convert(s@, node@) == Result::Err::<ExprV, ConvertError>(er),
        },
    decreases *node, 1nat, 0nat,
{
    if node.children.len() >= 1 {
        let head = &node.children[0];
        let head_ok = match head.rule {
            Rule::Ident => true,
            _ => false,
        };
        if head_ok && head.start <= head.end && head.end <= s.len() {
            let name = text_of(s, head.start, head.end);
            proof {
                assert(decreases_to!(*node => node.children@));
            }
            match convert_list(s, &node.children, 1) {
                Ok(params) => {
                    let e = Expression::Function {
                        function_name: name,
                        params,
                        where_modifier: None,
                        group_by_modifier: None,
                    };
                    proof {
                        lemma_expr_view_def(e);
                        lemma_exprv_wf_def(expr_view(e));
                    }
                    Ok(e)
                },
                Err(er) => Err(er),
            }
        } else {
            Err(ConvertError::InternalShape)
        }
    } else {
        Err(ConvertError::InternalShape)
    }
}

#[verifier::rlimit(30)]
#[verifier::spinoff_prover]
fn convert_if_node(s: &Vec<char>, node: &ParseNode) -> (r: Result<Expression, ConvertError>)
    requires
        node@.rule == Rule::IfNode,
    ensures
        match r {
            Result::Ok(e) => spec_convert(s@, node@) == Result::Ok::<ExprV, ConvertError>(
                expr_view(e),
            ) && exprv_wf(expr_view(e)),
            Result::Err(er) => spec_convert(s@, node@) == Result::Err::<ExprV, ConvertError>(er),
        },
    decreases *node, 1nat, 0nat,
{
    if node.children.len() == 3 {
        proof {
            assert(decreases_to!(*node => node.children@[0]));
            assert(decreases_to!(*node => node.children@[1]));
            assert(decreases_to!(*node => node.children@[2]));
        }
        let rc = convert_to_ast(s, &node.children[0]);
        let rt = convert_to_ast(s, &node.children[1]);
        let re = convert_to_ast(s, &node.children[2]);
        match (rc, rt, re) {
            (Ok(c), Ok(t), Ok(e)) => {
                let out = Expression::IfExpression {
                    condition: Box::new(c),
                    result: Box::new(t),
                    else_result: Box::new(e),
                    where_modifier: None,
                };
                proof {
                    lemma_expr_view_def(out);
                    lemma_exprv_wf_def(expr_view(out));
                }
                Ok(out)
            },
            (Err(er), _, _) => Err(er),
            (_, Err(er), _) => Err(er),
            (_, _, Err(er)) => Err(er),
        }
    } else {
        Err(ConvertError::InternalShape)
    }
}

#[verifier::rlimit(30)]
#[verifier::spinoff_prover]
fn convert_case_node(s: &Vec<char>, node: &ParseNode) -> (r: Result<Expression, ConvertError>)
    requires
        node@.rule == Rule::CaseNode,
    ensures
        match r {
            Result::Ok(e) => spec_convert(s@, node@) == Result::Ok::<ExprV, ConvertError>(
                expr_view(e),
            ) && exprv_wf(expr_view(e)),
            Result::Err(er) => spec_convert(s@, node@) == Result::Err::<ExprV, ConvertError>(er),
        },
    decreases *node, 1nat, 0nat,
{
    if node.children.len() >= 2 {
        proof {
            assert(decreases_to!(*node => node.children@));
        }
        match convert_cases(s, &node.children, 0) {
            Ok(cases) => {
                let last = node.children.len() - 1;
                proof {
                    assert(decreases_to!(*node => node.children@[last as int]));
                }
                match convert_to_ast(s, &node.children[last]) {
                    Ok(e) => {
                        let out = Expression::CaseExpression {
                            cases,
                            else_result: Box::new(e),
                            where_modifier: None,
                        };
                        proof {
                            lemma_expr_view_def(out);
                            lemma_exprv_wf_def(expr_view(out));
                        }
                        Ok(out)
                    },
                    Err(er) => Err(er),
                }
            },
            Err(er) => Err(er),
        }
    } else {
        Err(ConvertError::InternalShape)
    }
}

/// The constant name of the `not` operator.
fn not_name() -> (r: String)
    ensures
        r@ == kw_not(),
{
    proof {
        reveal_strlit("not");
        assert("not"@ =~= kw_not());
    }
    let mut v: Vec<char> = Vec::new();
    v.push('n');
    v.push('o');
    v.push('t');
    proof {
        assert(v@ =~= kw_not());
    }
    text_of(&v, 0, 3)
}

} // verus!

verus! {

#[verifier::rlimit(30)]
#[verifier::spinoff_prover]
fn convert_chain(s: &Vec<char>, ch: &Vec<ParseNode>, acc: Expression, i: usize) -> (r: Result<
    Expression,
    ConvertError,
>)
    requires
        exprv_wf(expr_view(acc)),
    ensures
        match r {
            Result::Ok(e) => spec_convert_chain(s@, nodes_view(ch@), expr_view(acc), i as int)
                == Result::Ok::<ExprV, ConvertError>(expr_view(e)) && exprv_wf(expr_view(e)),
            Result::Err(er) => spec_convert_chain(s@, nodes_view(ch@), expr_view(acc), i as int)
                == Result::Err::<ExprV, ConvertError>(er),
        },
    decreases ch@, 2nat, ch@.len() + 1 - i,
{
    if i >= ch.len() {
        Ok(acc)
    } else if i + 1 >= ch.len() {
        Err(ConvertError::InternalShape)
    } else {
        let op = &ch[i];
        let op_ok = match op.rule {
            Rule::OpToken => true,
            _ => false,
        };
        if op_ok && op.start <= op.end && op.end <= s.len() {
            proof {
                assert(decreases_to!(ch@ => ch@[i + 1]));
            }
            match convert_to_ast(s, &ch[i + 1]) {
                Ok(rhs) => {
                    let name = text_of(s, op.start, op.end);
                    let ghost a0 = expr_view(acc);
                    let ghost r0 = expr_view(rhs);
                    let mut params: Vec<Expression> = Vec::new();
                    params.push(acc);
                    params.push(rhs);
                    let next = Expression::Function {
                        function_name: name,
                        params,
                        where_modifier: None,
                        group_by_modifier: None,
                    };
                    proof {
                        lemma_expr_view_def(next);
                        assert(exprs_view(next->Function_params@) =~= seq![a0, r0]);
                        lemma_exprv_wf_def(expr_view(next));
                    }
                    convert_chain(s, ch, next, i + 2)
                },
                Err(er) => Err(er),
            }
        } else {
            Err(ConvertError::InternalShape)
        }
    }
}

#[verifier::rlimit(30)]
#[verifier::spinoff_prover]
fn convert_list(s: &Vec<char>, ch: &Vec<ParseNode>, i: usize) -> (r: Result<
    Vec<Expression>,
    ConvertError,
>)
    ensures
        match r {
            Result::Ok(es) => spec_convert_list(s@, nodes_view(ch@), i as int) == Result::Ok::<
                Seq<ExprV>,
                ConvertError,
            >(exprs_view(es@)) && exprsv_wf(exprs_view(es@)),
            Result::Err(er) => spec_convert_list(s@, nodes_view(ch@), i as int) == Result::Err::<
                Seq<ExprV>,
                ConvertError,
            >(er),
        },
    decreases ch@, 2nat, ch@.len() + 1 - i,
{
    if i >= ch.len() {
        let out: Vec<Expression> = Vec::new();
        proof {
            assert(exprs_view(out@) =~= Seq::<ExprV>::empty());
        }
        Ok(out)
    } else {
        proof {
            assert(decreases_to!(ch@ => ch@[i as int]));
        }
        match convert_to_ast(s, &ch[i]) {
            Ok(e) => match convert_list(s, ch, i + 1) {
                Ok(rest) => {
                    let ghost e0 = expr_view(e);
                    let ghost r0 = rest@;
                    let mut out: Vec<Expression> = Vec::new();
                    out.push(e);
                    let mut rest = rest;
                    out.append(&mut rest);
                    proof {
                        assert(out@ =~= seq![out@[0]] + r0);
                        assert(exprs_view(out@) =~= seq![e0] + exprs_view(r0));
                    }
                    Ok(out)
                },
                Err(er) => Err(er),
            },
            Err(er) => Err(er),
        }
    }
}

#[verifier::rlimit(30)]
#[verifier::spinoff_prover]
fn convert_cases(s: &Vec<char>, ch: &Vec<ParseNode>, i: usize) -> (r: Result<
    Vec<CaseBranch>,
    ConvertError,
>)
    ensures
        match r {
            Result::Ok(cs) => spec_convert_cases(s@, nodes_view(ch@), i as int) == Result::Ok::<
                Seq<CaseBranchV>,
                ConvertError,
            >(branches_view(cs@)) && forall|j: int|
                0 <= j < cs@.len() ==> exprv_wf(#[trigger] branches_view(cs@)[j].condition)
                    && exprv_wf(branches_view(cs@)[j].result),
            Result::Err(er) => spec_convert_cases(s@, nodes_view(ch@), i as int) == Result::Err::<
                Seq<CaseBranchV>,
                ConvertError,
            >(er),
        },
    decreases ch@, 2nat, ch@.len() + 1 - i,
{
    if ch.len() == 0 || i >= ch.len() - 1 {
        let out: Vec<CaseBranch> = Vec::new();
        proof {
            assert(branches_view(out@) =~= Seq::<CaseBranchV>::empty());
        }
        Ok(out)
    } else {
        let node = &ch[i];
        let is_when = match node.rule {
            Rule::CaseWhen => true,
            _ => false,
        };
        if is_when && node.children.len() == 2 {
            proof {
                assert(decreases_to!(ch@ => ch@[i as int]));
                assert(decreases_to!(ch@[i as int] => ch@[i as int].children@[0]));
                assert(decreases_to!(ch@[i as int] => ch@[i as int].children@[1]));
            }
            let rc = convert_to_ast(s, &node.children[0]);
            let rr = convert_to_ast(s, &node.children[1]);
            match (rc, rr) {
                (Ok(c), Ok(rr2)) => match convert_cases(s, ch, i + 1) {
                    Ok(rest) => {
                        let ghost c0 = expr_view(c);
                        let ghost rr0 = expr_view(rr2);
                        let ghost rest0 = rest@;
                        let mut out: Vec<CaseBranch> = Vec::new();
                        out.push(CaseBranch { condition: c, result: rr2 });
                        let mut rest = rest;
                        out.append(&mut rest);
                        proof {
                            assert(out@ =~= seq![out@[0]] + rest0);
                            assert(branches_view(out@) =~= seq![
                                CaseBranchV { condition: c0, result: rr0 },
                            ] + branches_view(rest0));
                        }
                        Ok(out)
                    },
                    Err(er) => Err(er),
                },
                (Err(er), _) => Err(er),
                (_, Err(er)) => Err(er),
            }
        } else {
            Err(ConvertError::InternalShape)
        }
    }
}

#[verifier::rlimit(30)]
#[verifier::spinoff_prover]
fn convert_where(s: &Vec<char>, node: &ParseNode) -> (r: Result<WhereModifier, ConvertError>)
    ensures
        match r {
            Result::Ok(w) => spec_convert_where(s@, node@) == Result::Ok::<WhereV, ConvertError>(
                where_view(w),
            ) && owherev_wf(Option::Some(where_view(w))),
            Result::Err(er) => spec_convert_where(s@, node@) == Result::Err::<
                WhereV,
                ConvertError,
            >(er),
        },
    decreases *node, 2nat, 0nat,
{
    let is_where = match node.rule {
        Rule::WhereNode => true,
        _ => false,
    };
    if is_where && node.children.len() >= 1 {
        let first = &node.children[0];
        proof {
            assert(decreases_to!(*node => node.children@));
            assert(decreases_to!(node.children@ => node.children@[0]));
            assert(decreases_to!(node.children@[0] => node.children@[0].children@));
        }
        match first.rule {
            Rule::AllowFilters => {
                let rf = convert_list(s, &first.children, 0);
                let rl = convert_list(s, &node.children, 1);
                match (rf, rl) {
                    (Ok(fields), Ok(filters)) => Ok(
                        WhereModifier {
                            filter_context: Some(
                                FilterContext::AllowedFilters { allowed_filters: fields },
                            ),
                            additional_filters: filters,
                        },
                    ),
                    (Err(er), _) => Err(er),
                    (_, Err(er)) => Err(er),
                }
            },
            Rule::IgnoreAllFilters => {
                match convert_list(s, &node.children, 1) {
                    Ok(filters) => Ok(
                        WhereModifier {
                            filter_context: Some(FilterContext::AllFiltersIgnored()),
                            additional_filters: filters,
                        },
                    ),
                    Err(er) => Err(er),
                }
            },
            Rule::IgnoreFilters => {
                let rf = convert_list(s, &first.children, 0);
                let rl = convert_list(s, &node.children, 1);
                match (rf, rl) {
                    (Ok(fields), Ok(filters)) => Ok(
                        WhereModifier {
                            filter_context: Some(
                                FilterContext::IgnoredFilters { ignored_filters: fields },
                            ),
                            additional_filters: filters,
                        },
                    ),
                    (Err(er), _) => Err(er),
                    (_, Err(er)) => Err(er),
                }
            },
            _ => {
                match convert_list(s, &node.children, 0) {
                    Ok(filters) => Ok(
                        WhereModifier { filter_context: None, additional_filters: filters },
                    ),
                    Err(er) => Err(er),
                }
            },
        }
    } else {
        Err(ConvertError::InternalShape)
    }
}

#[verifier::rlimit(30)]
#[verifier::spinoff_prover]
fn convert_group(s: &Vec<char>, node: &ParseNode) -> (r: Result<GroupByContext, ConvertError>)
    ensures
        match r {
            Result::Ok(g) => spec_convert_group(s@, node@) == Result::Ok::<
                GroupCtxV,
                ConvertError,
            >(group_ctx_view(g)) && ogroupv_wf(Option::Some(group_ctx_view(g))),
            Result::Err(er) => spec_convert_group(s@, node@) == Result::Err::<
                GroupCtxV,
                ConvertError,
            >(er),
        },
    decreases *node, 2nat, 0nat,
{
    let is_group = match node.rule {
        Rule::GroupNode => true,
        _ => false,
    };
    if is_group && node.children.len() == 1 && (match node.children[0].rule {
        Rule::AllGroupsTok => true,
        _ => false,
    }) {
        Ok(GroupByContext::AllGroups())
    } else if is_group && node.children.len() >= 1 {
        proof {
            assert(decreases_to!(*node => node.children@));
        }
        match convert_grefs(s, &node.children, 0) {
            Ok(groups) => Ok(GroupByContext::IncludedGroups { groups }),
            Err(er) => Err(er),
        }
    } else {
        Err(ConvertError::InternalShape)
    }
}

#[verifier::rlimit(30)]
#[verifier::spinoff_prover]
fn convert_gref(s: &Vec<char>, node: &ParseNode) -> (r: Result<GroupReference, ConvertError>)
    ensures
        match r {
            Result::Ok(g) => spec_convert_gref(s@, node@) == Result::Ok::<
                GroupRefV,
                ConvertError,
            >(gref_view(g)) && grefv_wf(gref_view(g)),
            Result::Err(er) => spec_convert_gref(s@, node@) == Result::Err::<
                GroupRefV,
                ConvertError,
            >(er),
        },
    decreases *node, 3nat, 0nat,
{
    let is_query = match node.rule {
        Rule::QueryGroupRef => true,
        _ => false,
    };
    if is_query {
        let head_ok = node.children.len() == 1 && (match node.children[0].rule {
            Rule::NumberTok => true,
            _ => false,
        });
        if head_ok && node.children[0].start <= s.len() && node.children[0].end <= s.len() {
            match index_value(s, node.children[0].start, node.children[0].end) {
                Ok(v) => Ok(GroupReference::QueryGroup { index: v }),
                Err(er) => Err(er),
            }
        } else {
            Err(ConvertError::InternalShape)
        }
    } else {
        match convert_to_ast(s, node) {
            Ok(e) => Ok(GroupReference::FieldGroup { field: e }),
            Err(er) => Err(er),
        }
    }
}

#[verifier::rlimit(30)]
#[verifier::spinoff_prover]
fn convert_grefs(s: &Vec<char>, ch: &Vec<ParseNode>, i: usize) -> (r: Result<
    Vec<GroupReference>,
    ConvertError,
>)
    ensures
        match r {
            Result::Ok(gs) => spec_convert_grefs(s@, nodes_view(ch@), i as int) == Result::Ok::<
                Seq<GroupRefV>,
                ConvertError,
            >(grefs_view(gs@)) && forall|j: int|
                0 <= j < gs@.len() ==> grefv_wf(#[trigger] grefs_view(gs@)[j]),
            Result::Err(er) => spec_convert_grefs(s@, nodes_view(ch@), i as int) == Result::Err::<
                Seq<GroupRefV>,
                ConvertError,
            >(er),
        },
    decreases ch@, 4nat, ch@.len() + 1 - i,
{
    if i >= ch.len() {
        let out: Vec<GroupReference> = Vec::new();
        proof {
            assert(grefs_view(out@) =~= Seq::<GroupRefV>::empty());
        }
        Ok(out)
    } else {
        proof {
            assert(decreases_to!(ch@ => ch@[i as int]));
        }
        match convert_gref(s, &ch[i]) {
            Ok(g) => match convert_grefs(s, ch, i + 1) {
                Ok(rest) => {
                    let ghost g0 = gref_view(g);
                    let ghost rest0 = rest@;
                    let mut out: Vec<GroupReference> = Vec::new();
                    out.push(g);
                    let mut rest = rest;
                    out.append(&mut rest);
                    proof {
                        assert(out@ =~= seq![out@[0]] + rest0);
                        assert(grefs_view(out@) =~= seq![g0] + grefs_view(rest0));
                    }
                    Ok(out)
                },
                Err(er) => Err(er),
            },
            Err(er) => Err(er),
        }
    }
}

#[verifier::rlimit(30)]
#[verifier::spinoff_prover]
fn convert_modified(s: &Vec<char>, node: &ParseNode) -> (r: Result<Expression, ConvertError>)
    requires
        node@.rule == Rule::Modified,
    ensures
        match r {
            Result::Ok(e) => spec_convert(s@, node@) == Result::Ok::<ExprV, ConvertError>(
                expr_view(e),
            ) && exprv_wf(expr_view(e)),
            Result::Err(er) => spec_convert(s@, node@) == Result::Err::<ExprV, ConvertError>(er),
        },
    decreases *node, 1nat, 0nat,
{
    if node.children.len() == 2 && (match node.children[1].rule {
        Rule::WhereNode => true,
        _ => false,
    }) {
        proof {
            assert(decreases_to!(*node => node.children@[0]));
            assert(decreases_to!(*node => node.children@[1]));
        }
        let rc = convert_to_ast(s, &node.children[0]);
        let rw = convert_where(s, &node.children[1]);
        match (rc, rw) {
            (Ok(core), Ok(w)) => Ok(attach_where(core, w)),
            (Err(er), _) => Err(er),
            (_, Err(er)) => Err(er),
        }
    } else if node.children.len() == 2 && (match node.children[1].rule {
        Rule::GroupNode => true,
        _ => false,
    }) {
        proof {
            assert(decreases_to!(*node => node.children@[0]));
            assert(decreases_to!(*node => node.children@[1]));
        }
        let rc = convert_to_ast(s, &node.children[0]);
        let rg = convert_group(s, &node.children[1]);
        match (rc, rg) {
            (Ok(core), Ok(g)) => {
                let ghost core0 = core;
                match core {
                    Expression::Function {
                        function_name,
                        params,
                        where_modifier,
                        group_by_modifier,
                    } => {
                        let out = Expression::Function {
                            function_name,
                            params,
                            where_modifier,
                            group_by_modifier: Some(GroupByModifier { group_context: g }),
                        };
                        proof {
                            lemma_expr_view_def(core0);
                            lemma_expr_view_def(out);
                            lemma_exprv_wf_def(expr_view(core0));
                            lemma_exprv_wf_def(expr_view(out));
                        }
                        Ok(out)
                    },
                    _ => {
                        proof {
                            lemma_expr_view_def(core0);
                        }
                        Err(ConvertError::InternalShape)
                    },
                }
            },
            (Err(er), _) => Err(er),
            (_, Err(er)) => Err(er),
        }
    } else if node.children.len() == 3 && (match node.children[1].rule {
        Rule::GroupNode => true,
        _ => false,
    }) && (match node.children[2].rule {
        Rule::WhereNode => true,
        _ => false,
    }) {
        proof {
            assert(decreases_to!(*node => node.children@[0]));
            assert(decreases_to!(*node => node.children@[1]));
            assert(decreases_to!(*node => node.children@[2]));
        }
        let rc = convert_to_ast(s, &node.children[0]);
        let rg = convert_group(s, &node.children[1]);
        let rw = convert_where(s, &node.children[2]);
        match (rc, rg, rw) {
            (Ok(core), Ok(g), Ok(w)) => {
                let ghost core0 = core;
                match core {
                    Expression::Function {
                        function_name,
                        params,
                        where_modifier,
                        group_by_modifier,
                    } => {
                        let out = Expression::Function {
                            function_name,
                            params,
                            where_modifier: Some(w),
                            group_by_modifier: Some(GroupByModifier { group_context: g }),
                        };
                        proof {
                            lemma_expr_view_def(core0);
                            lemma_expr_view_def(out);
                            lemma_exprv_wf_def(expr_view(core0));
                            lemma_exprv_wf_def(expr_view(out));
                        }
                        Ok(out)
                    },
                    _ => {
                        proof {
                            lemma_expr_view_def(core0);
                        }
                        Err(ConvertError::InternalShape)
                    },
                }
            },
            (Err(er), _, _) => Err(er),
            (_, Err(er), _) => Err(er),
            (_, _, Err(er)) => Err(er),
        }
    } else {
        Err(ConvertError::InternalShape)
    }
}

} // verus!
