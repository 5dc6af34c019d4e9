//! General laws of the language, stated and proved against the
//! specification functions that the executable code is proved to
//! compute.

use vstd::prelude::*;

use crate::ast::{CaseBranchV, ExprV, GroupCtxV, LitV, WhereV};
use crate::chars::{is_digit, is_ident_cont, is_ident_start, is_ws};
use crate::convert::{span_ok, span_text, spec_convert, spec_convert_chain, ConvertError};
use crate::eval::{spec_eval, spec_eval_cases, spec_eval_params, EvalErrorV};
use crate::grammar::{
    kw_and, kw_case_u, kw_false, kw_if, kw_not, kw_or, kw_true, kw_when_u, spec_case_branches,
    spec_digit_len, spec_field_ref, spec_level_op, spec_number_end,
    spec_ident_cont_len, spec_ident_end, spec_if_call_form, spec_if_then_form, spec_parse_case,
    spec_parse_func_call, spec_parse_if, spec_parse_input, spec_parse_level, spec_parse_not,
    spec_parse_operand, spec_parse_primary, spec_parse_tail, spec_parse_where, spec_path_end,
    spec_with_modifiers, spec_ws_len, word_at, Rule, SNode,
};

verus! {

/// An identifier-continuation run covering the whole rest of the input
/// is measured as such.
proof fn lemma_cont_len_all(s: Seq<char>, i: int)
    requires
        0 <= i <= s.len(),
        forall|j: int| i <= j < s.len() ==> is_ident_cont(#[trigger] s[j]),
    ensures
        spec_ident_cont_len(s, i) == s.len() - i,
    decreases s.len() - i,
{
    if i < s.len() {
        lemma_cont_len_all(s, i + 1);
    }
}

/// A digit run never reaches past the end of the input.
proof fn lemma_digit_len_bound(s: Seq<char>, i: int)
    requires
        0 <= i <= s.len(),
    ensures
        spec_digit_len(s, i) <= s.len() - i,
    decreases s.len() - i,
{
    if i < s.len() && is_digit(s[i]) {
        lemma_digit_len_bound(s, i + 1);
    }
}

/// Past the end of the input, no expression of any level begins.
#[verifier::rlimit(60)]
#[verifier::spinoff_prover]
proof fn lemma_no_expression_at_end(s: Seq<char>, pos: int)
    requires
        pos >= s.len(),
    ensures
        spec_parse_level(s, pos, 0) is None,
        spec_parse_level(s, pos, 1) is None,
        spec_parse_level(s, pos, 2) is None,
        spec_parse_level(s, pos, 3) is None,
        spec_parse_level(s, pos, 4) is None,
        spec_parse_operand(s, pos, 0) is None,
        spec_parse_operand(s, pos, 1) is None,
        spec_parse_operand(s, pos, 2) is None,
        spec_parse_operand(s, pos, 3) is None,
        spec_parse_operand(s, pos, 4) is None,
{
    reveal_with_fuel(spec_ws_len, 2);
    reveal_with_fuel(crate::grammar::spec_digit_len, 2);
    assert(spec_ws_len(s, pos) == 0);
    assert(spec_parse_func_call(s, pos) is None);
    assert(spec_field_ref(s, pos) is None);
    assert(spec_parse_primary(s, pos) is None);
    assert(spec_parse_operand(s, pos, 4) is None);
    assert(spec_parse_level(s, pos, 4) is None);
    assert(spec_parse_operand(s, pos, 3) is None);
    assert(spec_parse_level(s, pos, 3) is None);
    assert(spec_parse_not(s, pos) is None);
    assert(spec_parse_operand(s, pos, 2) is None);
    assert(spec_parse_level(s, pos, 2) is None);
    assert(spec_parse_operand(s, pos, 1) is None);
    assert(spec_parse_level(s, pos, 1) is None);
    assert(spec_parse_operand(s, pos, 0) is None);
    assert(spec_parse_level(s, pos, 0) is None);
}

/// A number literal beginning at the first character ends within the
/// input and consumes at least that character.
#[verifier::rlimit(60)]
#[verifier::spinoff_prover]
proof fn lemma_number_end_bounds(s: Seq<char>)
    requires
        s.len() >= 1,
        is_digit(s[0]),
    ensures
        spec_number_end(s, 0) matches Option::Some(e) && 1 <= e <= s.len(),
{
    lemma_digit_len_bound(s, 0);
    let d = spec_digit_len(s, 0) as int;
    assert(d >= 1);
    let p1 = d;
    let has_frac = 0 <= p1 < s.len() && s[p1] == '.' && p1 + 1 < s.len() && is_digit(
        s[p1 + 1],
    );
    if p1 + 1 < s.len() {
        lemma_digit_len_bound(s, p1 + 1);
    }
    let p2 = if p1 + 1 < s.len() && s[p1] == '.' && is_digit(s[p1 + 1]) {
        p1 + 1 + spec_digit_len(s, p1 + 1)
    } else {
        p1
    };
    assert(1 <= p2 <= s.len());
    if p2 < s.len() && (s[p2] == 'e' || s[p2] == 'E') {
        let q = if p2 + 1 < s.len() && (s[p2 + 1] == '+' || s[p2 + 1] == '-') {
            p2 + 2
        } else {
            p2 + 1
        };
        if q <= s.len() {
            lemma_digit_len_bound(s, q);
        }
    }
}

/// Over input whose characters can all continue an identifier, no
/// operator follows an operand: a symbol operator is no such character,
/// and a word operator either breaks on the next character or stands at
/// the very end, where no operand can follow it.
#[verifier::rlimit(100)]
#[verifier::spinoff_prover]
proof fn lemma_no_operator_follows(s: Seq<char>, pos: int)
    requires
        0 <= pos <= s.len(),
        forall|i: int| 0 <= i < s.len() ==> is_ident_cont(#[trigger] s[i]),
    ensures
        spec_parse_tail(s, pos, 0) == (Seq::<SNode>::empty(), pos),
        spec_parse_tail(s, pos, 1) == (Seq::<SNode>::empty(), pos),
        spec_parse_tail(s, pos, 2) == (Seq::<SNode>::empty(), pos),
        spec_parse_tail(s, pos, 3) == (Seq::<SNode>::empty(), pos),
        spec_parse_tail(s, pos, 4) == (Seq::<SNode>::empty(), pos),
{
    reveal_with_fuel(spec_ws_len, 2);
    assert(spec_ws_len(s, pos) == 0);
    lemma_no_expression_at_end(s, s.len() as int);
    if word_at(s, pos, kw_or()) {
        assert(pos + 2 == s.len());
    }
    if word_at(s, pos, kw_and()) {
        assert(pos + 3 == s.len());
    }
    assert(seq!['<'].len() == 1 && seq!['<'][0] == '<');
    assert(seq!['>'].len() == 1 && seq!['>'][0] == '>');
    assert(seq!['='].len() == 1 && seq!['='][0] == '=');
    assert(seq!['+'].len() == 1 && seq!['+'][0] == '+');
    assert(seq!['-'].len() == 1 && seq!['-'][0] == '-');
    assert(seq!['*'].len() == 1 && seq!['*'][0] == '*');
    assert(seq!['/'].len() == 1 && seq!['/'][0] == '/');
    assert(seq!['<', '='].len() == 2 && seq!['<', '='][0] == '<');
    assert(seq!['>', '='].len() == 2 && seq!['>', '='][0] == '>');
    assert(seq!['<', '>'].len() == 2 && seq!['<', '>'][0] == '<');
    assert(spec_parse_tail(s, pos, 0) == (Seq::<SNode>::empty(), pos));
    assert(spec_parse_tail(s, pos, 1) == (Seq::<SNode>::empty(), pos));
    assert(spec_parse_tail(s, pos, 2) == (Seq::<SNode>::empty(), pos));
    assert(spec_parse_tail(s, pos, 3) == (Seq::<SNode>::empty(), pos));
    assert(spec_parse_tail(s, pos, 4) == (Seq::<SNode>::empty(), pos));
}

/// The negative half of the identifier rule for digit-led text: input
/// that begins with a digit and continues with identifier characters is
/// never read as a field reference — it is a number literal where its
/// text is one, and a syntax error otherwise.
#[verifier::rlimit(100)]
#[verifier::spinoff_prover]
pub proof fn lemma_digit_led_input_is_no_field_reference(s: Seq<char>)
    requires
        s.len() >= 1,
        is_digit(s[0]),
        forall|i: int| 1 <= i < s.len() ==> is_ident_cont(#[trigger] s[i]),
    ensures
        spec_parse_input(s) matches Option::Some(n) ==> n.rule == Rule::NumberTok,
{
    reveal_with_fuel(spec_ws_len, 2);
    let n = s.len() as int;
    assert(forall|i: int| 0 <= i < s.len() ==> is_ident_cont(#[trigger] s[i]));
    assert(spec_ws_len(s, 0) == 0);
    assert(!word_at(s, 0, kw_if()));
    assert(!word_at(s, 0, kw_case_u()));
    assert(!word_at(s, 0, kw_true()));
    assert(!word_at(s, 0, kw_false()));
    assert(!word_at(s, 0, kw_not()));
    assert(spec_ident_end(s, 0) is None);
    assert(spec_parse_func_call(s, 0) is None);
    assert(spec_field_ref(s, 0) is None);
    lemma_number_end_bounds(s);
    let e = spec_number_end(s, 0)->Some_0;
    let node = SNode { rule: Rule::NumberTok, start: 0, end: e, children: Seq::empty() };
    assert(spec_ws_len(s, e) == 0);
    assert(spec_parse_where(s, e) is None);
    assert(spec_with_modifiers(s, e, node) == (node, e));
    assert(spec_parse_primary(s, 0) == Option::Some((node, e)));
    lemma_no_operator_follows(s, e);
    assert(spec_parse_operand(s, 0, 4) == Option::Some((node, e)));
    assert(spec_parse_level(s, 0, 4) == Option::Some((node, e)));
    assert(spec_parse_operand(s, 0, 3) == Option::Some((node, e)));
    assert(spec_parse_level(s, 0, 3) == Option::Some((node, e)));
    assert(spec_parse_operand(s, 0, 2) == Option::Some((node, e)));
    assert(spec_parse_level(s, 0, 2) == Option::Some((node, e)));
    assert(spec_parse_not(s, 0) == Option::Some((node, e)));
    assert(spec_parse_operand(s, 0, 1) == Option::Some((node, e)));
    assert(spec_parse_level(s, 0, 1) == Option::Some((node, e)));
    assert(spec_parse_operand(s, 0, 0) == Option::Some((node, e)));
    assert(spec_parse_level(s, 0, 0) == Option::Some((node, e)));
}

/// The node an identifier-only input denotes.
pub open spec fn ident_field_node(s: Seq<char>) -> SNode {
    SNode { rule: Rule::FieldRef, start: 0, end: s.len() as int, children: Seq::empty() }
}

/// Over identifier-shaped input, a whole-word keyword match forces the
/// input to be that keyword exactly: every character can continue an
/// identifier, so the word boundary must be the end of input.
proof fn lemma_keyword_is_whole_input(s: Seq<char>, kw: Seq<char>)
    requires
        forall|i: int| 0 <= i < s.len() ==> is_ident_cont(#[trigger] s[i]),
        word_at(s, 0, kw),
    ensures
        s == kw,
{
    assert(s =~= kw);
}

/// The two-character input `if` is no `if` expression: nothing follows
/// the keyword.
#[verifier::rlimit(60)]
#[verifier::spinoff_prover]
proof fn lemma_bare_if_does_not_parse(s: Seq<char>)
    requires
        s == kw_if(),
    ensures
        spec_parse_if(s, 0) is None,
{
    reveal_with_fuel(spec_ws_len, 2);
    lemma_no_expression_at_end(s, 2);
    assert(spec_ws_len(s, 2) == 0);
    assert(spec_if_call_form(s, 0) is None);
    assert(spec_if_then_form(s, 0) is None);
}

/// The four-character input `CASE` is no `CASE` expression: it has no
/// branch.
#[verifier::rlimit(60)]
#[verifier::spinoff_prover]
proof fn lemma_bare_case_does_not_parse(s: Seq<char>)
    requires
        s == kw_case_u(),
    ensures
        spec_parse_case(s, 0) is None,
{
    reveal_with_fuel(spec_ws_len, 2);
    assert(spec_ws_len(s, 4) == 0);
    assert(!word_at(s, 4, kw_when_u()));
    assert(spec_case_branches(s, 4) == (Seq::<SNode>::empty(), 4int));
}

/// A whole-input identifier is recognized as one primary: a field
/// reference covering the whole input.
#[verifier::rlimit(100)]
#[verifier::spinoff_prover]
proof fn lemma_identifier_primary(s: Seq<char>)
    requires
        s.len() >= 1,
        is_ident_start(s[0]),
        forall|i: int| 1 <= i < s.len() ==> is_ident_cont(#[trigger] s[i]),
        s != kw_true(),
        s != kw_false(),
    ensures
        spec_parse_primary(s, 0) == Option::Some((ident_field_node(s), s.len() as int)),
{
    reveal_with_fuel(spec_ws_len, 2);
    let n = s.len() as int;
    assert(forall|i: int| 0 <= i < s.len() ==> is_ident_cont(#[trigger] s[i]));
    assert(!is_ws(s[0]));
    assert(spec_ws_len(s, 0) == 0);
    lemma_cont_len_all(s, 1);
    assert(spec_ident_end(s, 0) == Option::Some(n));
    assert(spec_path_end(s, n) == n);
    assert(spec_field_ref(s, 0) == Option::Some((ident_field_node(s), n)));
    // The keyword alternatives: a whole-word keyword match forces the
    // input to be that keyword exactly, since every character can
    // continue an identifier.
    if word_at(s, 0, kw_if()) {
        lemma_keyword_is_whole_input(s, kw_if());
        lemma_bare_if_does_not_parse(s);
    }
    if word_at(s, 0, kw_case_u()) {
        lemma_keyword_is_whole_input(s, kw_case_u());
        lemma_bare_case_does_not_parse(s);
    }
    if word_at(s, 0, kw_true()) {
        lemma_keyword_is_whole_input(s, kw_true());
        assert(false);
    }
    if word_at(s, 0, kw_false()) {
        lemma_keyword_is_whole_input(s, kw_false());
        assert(false);
    }
    assert(spec_ws_len(s, n) == 0);
    assert(spec_parse_func_call(s, 0) is None);
    // No modifier clause can follow at the end of the input.
    assert(spec_parse_where(s, n) is None);
    assert(spec_with_modifiers(s, n, ident_field_node(s)) == (ident_field_node(s), n));
}

/// Every string of the identifier shape — a letter or underscore, then
/// letters, digits and underscores — is a well-formed formula and is
/// recognized as a single field reference covering the whole input.
/// The two boolean keywords are the one exception: `true` and `false`
/// are literals, not identifiers.
#[verifier::rlimit(100)]
#[verifier::spinoff_prover]
pub proof fn lemma_identifier_is_field_reference(s: Seq<char>)
    requires
        s.len() >= 1,
        is_ident_start(s[0]),
        forall|i: int| 1 <= i < s.len() ==> is_ident_cont(#[trigger] s[i]),
        s != kw_true(),
        s != kw_false(),
    ensures
        spec_parse_input(s) == Option::Some(ident_field_node(s)),
{
    reveal_with_fuel(spec_ws_len, 2);
    let n = s.len() as int;
    let node = ident_field_node(s);
    lemma_identifier_primary(s);
    assert(forall|i: int| 0 <= i < s.len() ==> is_ident_cont(#[trigger] s[i]));
    assert(!is_ws(s[0]));
    assert(spec_ws_len(s, 0) == 0);
    assert(spec_ws_len(s, n) == 0);
    // No operator token stands at the end of the input, so every level
    // ends with the single operand.
    assert(spec_level_op(s, n, 0) is None);
    assert(spec_level_op(s, n, 1) is None);
    assert(spec_level_op(s, n, 2) is None);
    assert(spec_level_op(s, n, 3) is None);
    assert(spec_level_op(s, n, 4) is None);
    assert(spec_parse_tail(s, n, 0) == (Seq::<SNode>::empty(), n));
    assert(spec_parse_tail(s, n, 1) == (Seq::<SNode>::empty(), n));
    assert(spec_parse_tail(s, n, 2) == (Seq::<SNode>::empty(), n));
    assert(spec_parse_tail(s, n, 3) == (Seq::<SNode>::empty(), n));
    assert(spec_parse_tail(s, n, 4) == (Seq::<SNode>::empty(), n));
    assert(spec_parse_operand(s, 0, 4) == Option::Some((node, n)));
    assert(spec_parse_level(s, 0, 4) == Option::Some((node, n)));
    assert(spec_parse_operand(s, 0, 3) == Option::Some((node, n)));
    assert(spec_parse_level(s, 0, 3) == Option::Some((node, n)));
    if word_at(s, 0, kw_not()) {
        lemma_keyword_is_whole_input(s, kw_not());
        lemma_no_expression_at_end(s, 3);
    }
    assert(spec_parse_operand(s, 0, 2) == Option::Some((node, n)));
    assert(spec_parse_level(s, 0, 2) == Option::Some((node, n)));
    assert(spec_parse_not(s, 0) == Option::Some((node, n)));
    assert(spec_parse_operand(s, 0, 1) == Option::Some((node, n)));
    assert(spec_parse_level(s, 0, 1) == Option::Some((node, n)));
    assert(spec_parse_operand(s, 0, 0) == Option::Some((node, n)));
    assert(spec_parse_level(s, 0, 0) == Option::Some((node, n)));
}

/// An identifier-shaped input, carried through the whole pipeline:
/// it parses, converts to a field reference naming exactly that
/// identifier, and evaluates to the field's value — or to
/// `FieldNotFound` naming it, where the context lacks it. It is never
/// a syntax error.
pub proof fn lemma_identifier_reaches_evaluation(s: Seq<char>, ctx: Map<Seq<char>, LitV>)
    requires
        s.len() >= 1,
        is_ident_start(s[0]),
        forall|i: int| 1 <= i < s.len() ==> is_ident_cont(#[trigger] s[i]),
        s != kw_true(),
        s != kw_false(),
    ensures
        spec_parse_input(s) == Option::Some(ident_field_node(s)),
        spec_convert(s, ident_field_node(s)) == Result::Ok::<ExprV, ConvertError>(
            ExprV::FieldE { field_id: s, wm: Option::None },
        ),
        !ctx.dom().contains(s) ==> spec_eval(ExprV::FieldE { field_id: s, wm: Option::None }, ctx)
            == Result::Err::<LitV, EvalErrorV>(EvalErrorV::FieldNotFoundV { field: s }),
        ctx.dom().contains(s) ==> spec_eval(ExprV::FieldE { field_id: s, wm: Option::None }, ctx)
            == Result::Ok::<LitV, EvalErrorV>(ctx[s]),
{
    lemma_identifier_is_field_reference(s);
    assert(span_text(s, ident_field_node(s)) =~= s);
}

/// Dividing by a zero-valued number yields `DivisionByZero`, whatever
/// the dividend's value and whatever representation the zero has —
/// never an unchecked numeric result.
pub proof fn lemma_division_by_zero(
    a: ExprV,
    b: ExprV,
    wm: Option<WhereV>,
    gm: Option<GroupCtxV>,
    ctx: Map<Seq<char>, LitV>,
)
    requires
        spec_eval(a, ctx) matches Result::Ok(LitV::NumV { num: n1, den: d1 }),
        spec_eval(b, ctx) matches Result::Ok(LitV::NumV { num: n2, den: d2 }) && n2 == 0,
    ensures
        spec_eval(ExprV::FuncE { name: "/"@, params: seq![a, b], wm, gm }, ctx) == Result::Err::<
            LitV,
            EvalErrorV,
        >(EvalErrorV::DivisionByZeroV),
{
    reveal_with_fuel(spec_eval_params, 4);
    let params = seq![a, b];
    let v1 = spec_eval(a, ctx)->Ok_0;
    let v2 = spec_eval(b, ctx)->Ok_0;
    assert(spec_eval_params(params, ctx, 2) == Result::Ok::<Seq<LitV>, EvalErrorV>(Seq::empty()));
    assert(spec_eval_params(params, ctx, 0) == Result::Ok::<Seq<LitV>, EvalErrorV>(
        seq![v1] + (seq![v2] + Seq::<LitV>::empty()),
    ));
    let args = seq![v1] + (seq![v2] + Seq::<LitV>::empty());
    assert(args.len() == 2 && args[0] == v1 && args[1] == v2);
}

/// `CASE` short-circuits: where the first branch's condition evaluates
/// to Boolean true, the whole expression evaluates to that branch's
/// result — the later conditions and all other results are never
/// consulted, whatever they are and even where they would fail.
pub proof fn lemma_case_first_true(
    cases: Seq<CaseBranchV>,
    els: ExprV,
    wm: Option<WhereV>,
    ctx: Map<Seq<char>, LitV>,
)
    requires
        cases.len() >= 1,
        spec_eval(cases[0].condition, ctx) == Result::Ok::<LitV, EvalErrorV>(
            LitV::BoolV { b: true },
        ),
    ensures
        spec_eval(ExprV::CaseE { cases, els: Box::new(els), wm }, ctx) == spec_eval(
            cases[0].result,
            ctx,
        ),
{
    reveal_with_fuel(spec_eval, 2);
    reveal_with_fuel(spec_eval_cases, 2);
    match spec_eval(cases[0].result, ctx) {
        Result::Ok(v) => {
            assert(spec_eval_cases(cases, ctx, 0) == Result::Ok::<Option<LitV>, EvalErrorV>(
                Option::Some(v),
            ));
        },
        Result::Err(er) => {
            assert(spec_eval_cases(cases, ctx, 0) == Result::Err::<Option<LitV>, EvalErrorV>(er));
        },
    }
}

/// Binary levels fold left-associatively: a chain of two
/// `(operator, operand)` pairs converts to the second operator applied
/// to the first operator's result and the last operand — so
/// `x op1 y op2 z` is `(x op1 y) op2 z`, never `x op1 (y op2 z)`.
pub proof fn lemma_chain_folds_left(
    s: Seq<char>,
    ch: Seq<SNode>,
    acc: ExprV,
    i: int,
    r1: ExprV,
    r2: ExprV,
)
    requires
        0 <= i,
        i + 4 == ch.len(),
        ch[i].rule == Rule::OpToken && span_ok(s, ch[i]),
        ch[i + 2].rule == Rule::OpToken && span_ok(s, ch[i + 2]),
        spec_convert(s, ch[i + 1]) == Result::Ok::<ExprV, ConvertError>(r1),
        spec_convert(s, ch[i + 3]) == Result::Ok::<ExprV, ConvertError>(r2),
    ensures
        spec_convert_chain(s, ch, acc, i) == Result::Ok::<ExprV, ConvertError>(
            ExprV::FuncE {
                name: span_text(s, ch[i + 2]),
                params: seq![
                    ExprV::FuncE {
                        name: span_text(s, ch[i]),
                        params: seq![acc, r1],
                        wm: Option::None,
                        gm: Option::None,
                    },
                    r2,
                ],
                wm: Option::None,
                gm: Option::None,
            },
        ),
{
    reveal_with_fuel(spec_convert_chain, 4);
}

} // verus!
