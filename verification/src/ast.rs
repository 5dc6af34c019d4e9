//! The abstract syntax tree of the calculation language, its
//! mathematical view, and short construction functions.
//!
//! Every node is an immutable value built once by the converter and
//! read by the evaluator. Ownership is tree-shaped: each parent owns
//! its children exclusively.

use vstd::prelude::*;

use crate::number::Rational;

verus! {

/// An immediate scalar: a string, an exact number, or a boolean.
#[derive(Debug, PartialEq)]
pub enum LiteralValue {
    StringValue(String),
    NumberValue(Rational),
    BooleanValue(bool),
}

/// One branch of a `CASE` expression; the first branch whose condition
/// holds decides the result.
#[derive(Debug, PartialEq)]
pub struct CaseBranch {
    pub condition: Expression,
    pub result: Expression,
}

/// Which ambient filters apply to the qualified expression.
#[derive(Debug, PartialEq)]
pub enum FilterContext {
    AllowedFilters { allowed_filters: Vec<Expression> },
    AllFiltersIgnored(),
    IgnoredFilters { ignored_filters: Vec<Expression> },
}

/// A bracketed `where` clause: an optional filter context and the
/// filter expressions conjoined on top of it.
#[derive(Debug, PartialEq)]
pub struct WhereModifier {
    pub filter_context: Option<FilterContext>,
    pub additional_filters: Vec<Expression>,
}

/// A reference to one grouping dimension: by position into the ambient
/// query's group-by list, or an explicit dimension expression.
#[derive(Debug, PartialEq)]
pub enum GroupReference {
    QueryGroup { index: usize },
    FieldGroup { field: Expression },
}

/// Which grouping dimensions the qualified function call uses.
#[derive(Debug, PartialEq)]
pub enum GroupByContext {
    AllGroups(),
    IncludedGroups { groups: Vec<GroupReference> },
}

/// A bracketed `group by` clause.
#[derive(Debug, PartialEq)]
pub struct GroupByModifier {
    pub group_context: GroupByContext,
}

/// An AST node. Modifiers attach only to the outermost expression they
/// qualify; sub-expressions do not inherit them.
#[derive(Debug, PartialEq)]
pub enum Expression {
    Literal { value: LiteralValue, where_modifier: Option<WhereModifier> },
    FieldReference { field_id: String, where_modifier: Option<WhereModifier> },
    Function {
        function_name: String,
        params: Vec<Expression>,
        where_modifier: Option<WhereModifier>,
        group_by_modifier: Option<GroupByModifier>,
    },
    IfExpression {
        condition: Box<Expression>,
        result: Box<Expression>,
        else_result: Box<Expression>,
        where_modifier: Option<WhereModifier>,
    },
    CaseExpression {
        cases: Vec<CaseBranch>,
        else_result: Box<Expression>,
        where_modifier: Option<WhereModifier>,
    },
}

// ---------------------------------------------------------------------
// Mathematical views: the same tree over `Seq`, `int` and `bool`.
// ---------------------------------------------------------------------

/// The view of a literal: string contents as a character sequence, a
/// number as an exact fraction of unbounded integers.
pub enum LitV {
    StrV { chars: Seq<char> },
    NumV { num: int, den: int },
    BoolV { b: bool },
}

pub enum FilterContextV {
    AllowedV { fields: Seq<ExprV> },
    AllIgnoredV,
    IgnoredV { fields: Seq<ExprV> },
}

pub struct WhereV {
    pub filter_context: Option<FilterContextV>,
    pub additional_filters: Seq<ExprV>,
}

pub enum GroupRefV {
    QueryV { index: int },
    FieldV { field: Box<ExprV> },
}

pub enum GroupCtxV {
    AllGroupsV,
    IncludedV { groups: Seq<GroupRefV> },
}

pub struct CaseBranchV {
    pub condition: ExprV,
    pub result: ExprV,
}

/// The view of an AST node.
pub enum ExprV {
    LitE { value: LitV, wm: Option<WhereV> },
    FieldE { field_id: Seq<char>, wm: Option<WhereV> },
    FuncE { name: Seq<char>, params: Seq<ExprV>, wm: Option<WhereV>, gm: Option<GroupCtxV> },
    IfE { cond: Box<ExprV>, thn: Box<ExprV>, els: Box<ExprV>, wm: Option<WhereV> },
    CaseE { cases: Seq<CaseBranchV>, els: Box<ExprV>, wm: Option<WhereV> },
}

pub open spec fn lit_view(v: LiteralValue) -> LitV {
    match v {
        LiteralValue::StringValue(s) => LitV::StrV { chars: s@ },
        LiteralValue::NumberValue(r) => LitV::NumV { num: r.num as int, den: r.den as int },
        LiteralValue::BooleanValue(b) => LitV::BoolV { b },
    }
}

pub open spec fn exprs_view(s: Seq<Expression>) -> Seq<ExprV>
    decreases s,
{
    Seq::new(
        s.len(),
        |i: int|
            if 0 <= i < s.len() {
                expr_view(s[i])
            } else {
                arbitrary()
            },
    )
}

pub open spec fn branches_view(s: Seq<CaseBranch>) -> Seq<CaseBranchV>
    decreases s,
{
    Seq::new(
        s.len(),
        |i: int|
            if 0 <= i < s.len() {
                CaseBranchV { condition: expr_view(s[i].condition), result: expr_view(s[i].result) }
            } else {
                arbitrary()
            },
    )
}

pub open spec fn grefs_view(s: Seq<GroupReference>) -> Seq<GroupRefV>
    decreases s,
{
    Seq::new(
        s.len(),
        |i: int|
            if 0 <= i < s.len() {
                gref_view(s[i])
            } else {
                arbitrary()
            },
    )
}

pub open spec fn gref_view(g: GroupReference) -> GroupRefV
    decreases g,
{
    match g {
        GroupReference::QueryGroup { index } => GroupRefV::QueryV { index: index as int },
        GroupReference::FieldGroup { field } => GroupRefV::FieldV {
            field: Box::new(expr_view(field)),
        },
    }
}

pub open spec fn group_ctx_view(g: GroupByContext) -> GroupCtxV
    decreases g,
{
    match g {
        GroupByContext::AllGroups() => GroupCtxV::AllGroupsV,
        GroupByContext::IncludedGroups { groups } => GroupCtxV::IncludedV {
            groups: grefs_view(groups@),
        },
    }
}

pub open spec fn ogroup_view(o: Option<GroupByModifier>) -> Option<GroupCtxV>
    decreases o,
{
    match o {
        Option::Some(g) => Option::Some(group_ctx_view(g.group_context)),
        Option::None => Option::None,
    }
}

pub open spec fn fctx_view(f: FilterContext) -> FilterContextV
    decreases f,
{
    match f {
        FilterContext::AllowedFilters { allowed_filters } => FilterContextV::AllowedV {
            fields: exprs_view(allowed_filters@),
        },
        FilterContext::AllFiltersIgnored() => FilterContextV::AllIgnoredV,
        FilterContext::IgnoredFilters { ignored_filters } => FilterContextV::IgnoredV {
            fields: exprs_view(ignored_filters@),
        },
    }
}

pub open spec fn where_view(w: WhereModifier) -> WhereV
    decreases w,
{
    WhereV {
        filter_context: match w.filter_context {
            Option::Some(f) => Option::Some(fctx_view(f)),
            Option::None => Option::None,
        },
        additional_filters: exprs_view(w.additional_filters@),
    }
}

pub open spec fn owhere_view(o: Option<WhereModifier>) -> Option<WhereV>
    decreases o,
{
    match o {
        Option::Some(w) => Option::Some(where_view(w)),
        Option::None => Option::None,
    }
}

/// The mathematical view of an AST node.
pub open spec fn expr_view(e: Expression) -> ExprV
    decreases e,
{
    match e {
        Expression::Literal { value, where_modifier } => ExprV::LitE {
            value: lit_view(value),
            wm: owhere_view(where_modifier),
        },
        Expression::FieldReference { field_id, where_modifier } => ExprV::FieldE {
            field_id: field_id@,
            wm: owhere_view(where_modifier),
        },
        Expression::Function { function_name, params, where_modifier, group_by_modifier } => ExprV::FuncE {
            name: function_name@,
            params: exprs_view(params@),
            wm: owhere_view(where_modifier),
            gm: ogroup_view(group_by_modifier),
        },
        Expression::IfExpression { condition, result, else_result, where_modifier } => ExprV::IfE {
            cond: Box::new(expr_view(*condition)),
            thn: Box::new(expr_view(*result)),
            els: Box::new(expr_view(*else_result)),
            wm: owhere_view(where_modifier),
        },
        Expression::CaseExpression { cases, else_result, where_modifier } => ExprV::CaseE {
            cases: branches_view(cases@),
            els: Box::new(expr_view(*else_result)),
            wm: owhere_view(where_modifier),
        },
    }
}

/// The defining equation of `owhere_view`, available ambiently so that
/// one unfolding of `expr_view` can always see through it.
pub broadcast proof fn lemma_owhere_view(o: Option<WhereModifier>)
    ensures
        #[trigger] owhere_view(o) == (match o {
            Option::Some(w) => Option::Some(where_view(w)),
            Option::None => Option::<WhereV>::None,
        }),
{
}

/// The defining equation of `ogroup_view`, available ambiently.
pub broadcast proof fn lemma_ogroup_view(o: Option<GroupByModifier>)
    ensures
        #[trigger] ogroup_view(o) == (match o {
            Option::Some(g) => Option::Some(group_ctx_view(g.group_context)),
            Option::None => Option::<GroupCtxV>::None,
        }),
{
}

// ---------------------------------------------------------------------
// Well-formedness: every number in the tree keeps a positive
// denominator.
// ---------------------------------------------------------------------

pub open spec fn litv_wf(v: LitV) -> bool {
    match v {
        LitV::NumV { num, den } => den >= 1,
        _ => true,
    }
}

pub open spec fn exprsv_wf(s: Seq<ExprV>) -> bool
    decreases s,
{
    forall|i: int| 0 <= i < s.len() ==> exprv_wf(#[trigger] s[i])
}

pub open spec fn owherev_wf(o: Option<WhereV>) -> bool
    decreases o,
{
    match o {
        Option::Some(w) => {
            &&& match w.filter_context {
                Option::Some(FilterContextV::AllowedV { fields }) => exprsv_wf(fields),
                Option::Some(FilterContextV::IgnoredV { fields }) => exprsv_wf(fields),
                _ => true,
            }
            &&& exprsv_wf(w.additional_filters)
        },
        Option::None => true,
    }
}

pub open spec fn ogroupv_wf(o: Option<GroupCtxV>) -> bool
    decreases o,
{
    match o {
        Option::Some(GroupCtxV::IncludedV { groups }) => forall|i: int|
            0 <= i < groups.len() ==> grefv_wf(#[trigger] groups[i]),
        _ => true,
    }
}

pub open spec fn grefv_wf(g: GroupRefV) -> bool
    decreases g,
{
    match g {
        GroupRefV::QueryV { index } => true,
        GroupRefV::FieldV { field } => exprv_wf(*field),
    }
}

pub open spec fn exprv_wf(e: ExprV) -> bool
    decreases e,
{
    match e {
        ExprV::LitE { value, wm } => litv_wf(value) && owherev_wf(wm),
        ExprV::FieldE { field_id, wm } => owherev_wf(wm),
        ExprV::FuncE { name, params, wm, gm } => exprsv_wf(params) && owherev_wf(wm)
            && ogroupv_wf(gm),
        ExprV::IfE { cond, thn, els, wm } => exprv_wf(*cond) && exprv_wf(*thn) && exprv_wf(*els)
            && owherev_wf(wm),
        ExprV::CaseE { cases, els, wm } => {
            &&& forall|i: int|
                0 <= i < cases.len() ==> exprv_wf(#[trigger] cases[i].condition) && exprv_wf(
                    cases[i].result,
                )
            &&& exprv_wf(*els)
            &&& owherev_wf(wm)
        },
    }
}

/// The defining equation of `owherev_wf`, available ambiently.
pub broadcast proof fn lemma_owherev_wf(o: Option<WhereV>)
    ensures
        #[trigger] owherev_wf(o) == (match o {
            Option::Some(w) => {
                &&& match w.filter_context {
                    Option::Some(FilterContextV::AllowedV { fields }) => exprsv_wf(fields),
                    Option::Some(FilterContextV::IgnoredV { fields }) => exprsv_wf(fields),
                    _ => true,
                }
                &&& exprsv_wf(w.additional_filters)
            },
            Option::None => true,
        }),
{
}

/// The defining equation of `ogroupv_wf`, available ambiently.
pub broadcast proof fn lemma_ogroupv_wf(o: Option<GroupCtxV>)
    ensures
        #[trigger] ogroupv_wf(o) == (match o {
            Option::Some(GroupCtxV::IncludedV { groups }) => forall|i: int|
                0 <= i < groups.len() ==> grefv_wf(#[trigger] groups[i]),
            _ => true,
        }),
{
}

/// The defining equation of `expr_view`, available ambiently.
pub broadcast proof fn lemma_expr_view_def(e: Expression)
    ensures
        #[trigger] expr_view(e) == (match e {
            Expression::Literal { value, where_modifier } => ExprV::LitE {
                value: lit_view(value),
                wm: owhere_view(where_modifier),
            },
            Expression::FieldReference { field_id, where_modifier } => ExprV::FieldE {
                field_id: field_id@,
                wm: owhere_view(where_modifier),
            },
            Expression::Function {
                function_name,
                params,
                where_modifier,
                group_by_modifier,
            } => ExprV::FuncE {
                name: function_name@,
                params: exprs_view(params@),
                wm: owhere_view(where_modifier),
                gm: ogroup_view(group_by_modifier),
            },
            Expression::IfExpression {
                condition,
                result,
                else_result,
                where_modifier,
            } => ExprV::IfE {
                cond: Box::new(expr_view(*condition)),
                thn: Box::new(expr_view(*result)),
                els: Box::new(expr_view(*else_result)),
                wm: owhere_view(where_modifier),
            },
            Expression::CaseExpression { cases, else_result, where_modifier } => ExprV::CaseE {
                cases: branches_view(cases@),
                els: Box::new(expr_view(*else_result)),
                wm: owhere_view(where_modifier),
            },
        }),
{
}

/// The defining equation of `exprv_wf`, available ambiently.
pub broadcast proof fn lemma_exprv_wf_def(e: ExprV)
    ensures
        #[trigger] exprv_wf(e) == (match e {
            ExprV::LitE { value, wm } => litv_wf(value) && owherev_wf(wm),
            ExprV::FieldE { field_id, wm } => owherev_wf(wm),
            ExprV::FuncE { name, params, wm, gm } => exprsv_wf(params) && owherev_wf(wm)
                && ogroupv_wf(gm),
            ExprV::IfE { cond, thn, els, wm } => exprv_wf(*cond) && exprv_wf(*thn) && exprv_wf(
                *els,
            ) && owherev_wf(wm),
            ExprV::CaseE { cases, els, wm } => {
                &&& forall|i: int|
                    0 <= i < cases.len() ==> exprv_wf(#[trigger] cases[i].condition) && exprv_wf(
                        cases[i].result,
                    )
                &&& exprv_wf(*els)
                &&& owherev_wf(wm)
            },
        }),
{
}

/// The pointwise reading of `exprs_view`, available ambiently.
pub broadcast proof fn lemma_exprs_view(s: Seq<Expression>)
    ensures
        (#[trigger] exprs_view(s)).len() == s.len(),
        forall|i: int| 0 <= i < s.len() ==> #[trigger] exprs_view(s)[i] == expr_view(s[i]),
{
}

/// The defining equation of `exprsv_wf`, available ambiently.
pub broadcast proof fn lemma_exprsv_wf_def(s: Seq<ExprV>)
    ensures
        #[trigger] exprsv_wf(s) == (forall|i: int|
            0 <= i < s.len() ==> exprv_wf(#[trigger] s[i])),
{
}

/// The pointwise reading of `branches_view`, available ambiently.
pub broadcast proof fn lemma_branches_view(s: Seq<CaseBranch>)
    ensures
        (#[trigger] branches_view(s)).len() == s.len(),
        forall|i: int|
            0 <= i < s.len() ==> #[trigger] branches_view(s)[i] == (CaseBranchV {
                condition: expr_view(s[i].condition),
                result: expr_view(s[i].result),
            }),
{
}

/// The pointwise reading of `grefs_view`, available ambiently.
pub broadcast proof fn lemma_grefs_view(s: Seq<GroupReference>)
    ensures
        (#[trigger] grefs_view(s)).len() == s.len(),
        forall|i: int| 0 <= i < s.len() ==> #[trigger] grefs_view(s)[i] == gref_view(s[i]),
{
}

/// The defining equation of `where_view`, available ambiently.
pub broadcast proof fn lemma_where_view_def(w: WhereModifier)
    ensures
        #[trigger] where_view(w) == (WhereV {
            filter_context: match w.filter_context {
                Option::Some(f) => Option::Some(fctx_view(f)),
                Option::None => Option::None,
            },
            additional_filters: exprs_view(w.additional_filters@),
        }),
{
}

/// The defining equation of `fctx_view`, available ambiently.
pub broadcast proof fn lemma_fctx_view_def(f: FilterContext)
    ensures
        #[trigger] fctx_view(f) == (match f {
            FilterContext::AllowedFilters { allowed_filters } => FilterContextV::AllowedV {
                fields: exprs_view(allowed_filters@),
            },
            FilterContext::AllFiltersIgnored() => FilterContextV::AllIgnoredV,
            FilterContext::IgnoredFilters { ignored_filters } => FilterContextV::IgnoredV {
                fields: exprs_view(ignored_filters@),
            },
        }),
{
}

/// The defining equation of `group_ctx_view`, available ambiently.
pub broadcast proof fn lemma_group_ctx_view_def(g: GroupByContext)
    ensures
        #[trigger] group_ctx_view(g) == (match g {
            GroupByContext::AllGroups() => GroupCtxV::AllGroupsV,
            GroupByContext::IncludedGroups { groups } => GroupCtxV::IncludedV {
                groups: grefs_view(groups@),
            },
        }),
{
}

/// The defining equation of `gref_view`, available ambiently.
pub broadcast proof fn lemma_gref_view_def(g: GroupReference)
    ensures
        #[trigger] gref_view(g) == (match g {
            GroupReference::QueryGroup { index } => GroupRefV::QueryV { index: index as int },
            GroupReference::FieldGroup { field } => GroupRefV::FieldV {
                field: Box::new(expr_view(field)),
            },
        }),
{
}

/// The defining equation of `grefv_wf`, available ambiently.
pub broadcast proof fn lemma_grefv_wf_def(g: GroupRefV)
    ensures
        #[trigger] grefv_wf(g) == (match g {
            GroupRefV::QueryV { index } => true,
            GroupRefV::FieldV { field } => exprv_wf(*field),
        }),
{
}

/// The ambient group of the lighter tree-view equations: the option
/// wrappers and the pointwise readings of the sequence views. The two
/// full defining equations (`lemma_expr_view_def`, `lemma_exprv_wf_def`)
/// are heavier and are invoked where needed instead.
pub broadcast group group_ast_views {
    lemma_owhere_view,
    lemma_ogroup_view,
    lemma_owherev_wf,
    lemma_ogroupv_wf,
    lemma_exprs_view,
    lemma_exprsv_wf_def,
    lemma_branches_view,
    lemma_grefs_view,
    lemma_where_view_def,
    lemma_fctx_view_def,
    lemma_group_ctx_view_def,
    lemma_gref_view_def,
    lemma_grefv_wf_def,
}

// ---------------------------------------------------------------------
// Short construction functions.
// ---------------------------------------------------------------------

/// A string literal node.
pub fn lit_str(value: &str) -> (e: Expression)
    ensures
        expr_view(e) == (ExprV::LitE {
            value: LitV::StrV { chars: value@ },
            wm: Option::<WhereV>::None,
        }),
        exprv_wf(expr_view(e)),
{
    proof {
        lemma_owhere_view(Option::<WhereModifier>::None);
        lemma_owherev_wf(Option::<WhereV>::None);
        lemma_ogroup_view(Option::<GroupByModifier>::None);
        lemma_ogroupv_wf(Option::<GroupCtxV>::None);
    }
    Expression::Literal {
        value: LiteralValue::StringValue(value.to_owned()),
        where_modifier: None,
    }
}

/// A number literal node holding the exact fraction `num / den`.
pub fn lit_num(num: i64, den: i64) -> (e: Expression)
    requires
        den >= 1,
    ensures
        expr_view(e) == (ExprV::LitE {
            value: LitV::NumV { num: num as int, den: den as int },
            wm: Option::<WhereV>::None,
        }),
        exprv_wf(expr_view(e)),
{
    proof {
        lemma_owhere_view(Option::<WhereModifier>::None);
        lemma_owherev_wf(Option::<WhereV>::None);
        lemma_ogroup_view(Option::<GroupByModifier>::None);
        lemma_ogroupv_wf(Option::<GroupCtxV>::None);
    }
    Expression::Literal {
        value: LiteralValue::NumberValue(Rational { num, den }),
        where_modifier: None,
    }
}

/// A boolean literal node.
pub fn lit_bool(value: bool) -> (e: Expression)
    ensures
        expr_view(e) == (ExprV::LitE {
            value: LitV::BoolV { b: value },
            wm: Option::<WhereV>::None,
        }),
        exprv_wf(expr_view(e)),
{
    proof {
        lemma_owhere_view(Option::<WhereModifier>::None);
        lemma_owherev_wf(Option::<WhereV>::None);
    }
    Expression::Literal { value: LiteralValue::BooleanValue(value), where_modifier: None }
}

/// A field reference node for the dotted path `field_id`.
pub fn field_ref(field_id: &str) -> (e: Expression)
    ensures
        expr_view(e) == (ExprV::FieldE { field_id: field_id@, wm: Option::<WhereV>::None }),
        exprv_wf(expr_view(e)),
{
    proof {
        lemma_owhere_view(Option::<WhereModifier>::None);
        lemma_owherev_wf(Option::<WhereV>::None);
        lemma_ogroup_view(Option::<GroupByModifier>::None);
        lemma_ogroupv_wf(Option::<GroupCtxV>::None);
    }
    Expression::FieldReference { field_id: field_id.to_owned(), where_modifier: None }
}

/// A function or operator node with the given parameters, in order.
pub fn func(function_name: &str, params: Vec<Expression>) -> (e: Expression)
    ensures
        expr_view(e) == (ExprV::FuncE {
            name: function_name@,
            params: exprs_view(params@),
            wm: Option::<WhereV>::None,
            gm: Option::<GroupCtxV>::None,
        }),
        exprsv_wf(exprs_view(params@)) ==> exprv_wf(expr_view(e)),
{
    proof {
        lemma_owhere_view(Option::<WhereModifier>::None);
        lemma_owherev_wf(Option::<WhereV>::None);
        lemma_ogroup_view(Option::<GroupByModifier>::None);
        lemma_ogroupv_wf(Option::<GroupCtxV>::None);
    }
    Expression::Function {
        function_name: function_name.to_owned(),
        params,
        where_modifier: None,
        group_by_modifier: None,
    }
}

/// An `if` node.
pub fn if_expr(condition: Expression, result: Expression, else_result: Expression) -> (e:
    Expression)
    ensures
        expr_view(e) == (ExprV::IfE {
            cond: Box::new(expr_view(condition)),
            thn: Box::new(expr_view(result)),
            els: Box::new(expr_view(else_result)),
            wm: Option::<WhereV>::None,
        }),
        exprv_wf(expr_view(condition)) && exprv_wf(expr_view(result)) && exprv_wf(
            expr_view(else_result),
        ) ==> exprv_wf(expr_view(e)),
{
    proof {
        lemma_owhere_view(Option::<WhereModifier>::None);
        lemma_owherev_wf(Option::<WhereV>::None);
        lemma_ogroup_view(Option::<GroupByModifier>::None);
        lemma_ogroupv_wf(Option::<GroupCtxV>::None);
    }
    Expression::IfExpression {
        condition: Box::new(condition),
        result: Box::new(result),
        else_result: Box::new(else_result),
        where_modifier: None,
    }
}

/// A `CASE` node with ordered branches and a mandatory `ELSE` result.
pub fn case_expr(cases: Vec<CaseBranch>, else_result: Expression) -> (e: Expression)
    ensures
        expr_view(e) == (ExprV::CaseE {
            cases: branches_view(cases@),
            els: Box::new(expr_view(else_result)),
            wm: Option::<WhereV>::None,
        }),
{
    proof {
        lemma_owhere_view(Option::<WhereModifier>::None);
        lemma_owherev_wf(Option::<WhereV>::None);
        lemma_ogroup_view(Option::<GroupByModifier>::None);
        lemma_ogroupv_wf(Option::<GroupCtxV>::None);
    }
    Expression::CaseExpression { cases, else_result: Box::new(else_result), where_modifier: None }
}

/// One `WHEN ... THEN ...` branch.
pub fn case_branch(condition: Expression, result: Expression) -> (b: CaseBranch)
    ensures
        b == (CaseBranch { condition, result }),
{
    CaseBranch { condition, result }
}

/// A `where` modifier from its parts.
pub fn where_modifier(filter_context: Option<FilterContext>, additional_filters: Vec<
    Expression>) -> (w: WhereModifier)
    ensures
        w == (WhereModifier { filter_context, additional_filters }),
{
    WhereModifier { filter_context, additional_filters }
}

/// The filter context that keeps only the named ambient filters.
pub fn allowed_filters(fields: Vec<Expression>) -> (f: FilterContext)
    ensures
        f == (FilterContext::AllowedFilters { allowed_filters: fields }),
{
    FilterContext::AllowedFilters { allowed_filters: fields }
}

/// The filter context that suppresses the named ambient filters.
pub fn ignored_filters(fields: Vec<Expression>) -> (f: FilterContext)
    ensures
        f == (FilterContext::IgnoredFilters { ignored_filters: fields }),
{
    FilterContext::IgnoredFilters { ignored_filters: fields }
}

/// The filter context that suppresses every ambient filter.
pub fn ignore_all_filters() -> (f: FilterContext)
    ensures
        f == FilterContext::AllFiltersIgnored(),
{
    FilterContext::AllFiltersIgnored()
}

/// A `group by` modifier from its context.
pub fn group_by_modifier(group_context: GroupByContext) -> (g: GroupByModifier)
    ensures
        g == (GroupByModifier { group_context }),
{
    GroupByModifier { group_context }
}

/// A grouping reference by position into the ambient group-by list.
pub fn query_group(index: usize) -> (g: GroupReference)
    ensures
        g == (GroupReference::QueryGroup { index }),
{
    GroupReference::QueryGroup { index }
}

/// A grouping reference given by an explicit dimension expression.
pub fn field_group(field: Expression) -> (g: GroupReference)
    ensures
        g == (GroupReference::FieldGroup { field }),
{
    GroupReference::FieldGroup { field }
}

/// The grouping context that keeps every ambient dimension.
pub fn all_groups() -> (g: GroupByContext)
    ensures
        g == GroupByContext::AllGroups(),
{
    GroupByContext::AllGroups()
}

/// The grouping context restricted to the listed references, in order.
pub fn included_groups(groups: Vec<GroupReference>) -> (g: GroupByContext)
    ensures
        g == (GroupByContext::IncludedGroups { groups }),
{
    GroupByContext::IncludedGroups { groups }
}

} // verus!

