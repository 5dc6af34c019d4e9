//! The grammar: recognition of formula text into a parse tree.
//!
//! The language is recognized by a deterministic recursive descent with
//! ordered choice and single-token backtracking, exactly the structure
//! of the `spec_parse_*` functions below; each executable parser
//! returns precisely what its specification function denotes. Operator
//! precedence is structural: one production per level, lowest binding
//! first (`or`, `and`, unary `not`, comparison, additive,
//! multiplicative, primary).

use vstd::prelude::*;

use crate::chars::{
    exec_is_digit, exec_is_ident_cont, exec_is_ident_start, exec_is_ws, is_digit, is_ident_cont,
    is_ident_start, is_ws,
};
use vstd::string::StrSliceExecFns;

verus! {

/// What a parse-tree node stands for.
#[derive(Debug, Clone, Copy, PartialEq, Eq, Structural)]
pub enum Rule {
    /// `operand (op operand)+` of one precedence level, children
    /// alternating operand, operator, operand, ...
    BinaryChain,
    /// An operator token; its span is the operator text.
    OpToken,
    /// `not` applied to its one child.
    NotExpr,
    /// A call: first child the name, the rest the arguments in order.
    FuncCall,
    /// An identifier token.
    Ident,
    /// A dotted field path; the span is the whole path.
    FieldRef,
    /// A number token.
    NumberTok,
    /// A string token; the span includes the quotes.
    StringTok,
    /// `true` or `false`.
    BoolTok,
    /// `if`: children condition, result, else result.
    IfNode,
    /// `CASE`: `CaseWhen` children, then the `ELSE` expression last.
    CaseNode,
    /// One `WHEN ... THEN ...` pair.
    CaseWhen,
    /// A primary with bracketed modifiers: the core first, then the
    /// `group by` clause and/or the `where` clause.
    Modified,
    /// A `where` clause: the first child is a filter-context form or a
    /// filter expression; the rest are filter expressions.
    WhereNode,
    /// `allow filters on ...`: field-reference children.
    AllowFilters,
    /// `ignore all filters`.
    IgnoreAllFilters,
    /// `ignore filters on ...`: field-reference children.
    IgnoreFilters,
    /// A `group by` clause: either one `AllGroupsTok` child or group
    /// references.
    GroupNode,
    /// `all groups`.
    AllGroupsTok,
    /// `group(N)`: one number child.
    QueryGroupRef,
}

/// A parse-tree node: a rule, the source span it covers, and its
/// children in source order.
#[derive(Debug, PartialEq)]
pub struct ParseNode {
    pub rule: Rule,
    pub start: usize,
    pub end: usize,
    pub children: Vec<ParseNode>,
}

/// The view of a parse-tree node.
pub struct SNode {
    pub rule: Rule,
    pub start: int,
    pub end: int,
    pub children: Seq<SNode>,
}

pub open spec fn nodes_view(s: Seq<ParseNode>) -> Seq<SNode>
    decreases s,
{
    Seq::new(
        s.len(),
        |i: int|
            if 0 <= i < s.len() {
                node_view(s[i])
            } else {
                arbitrary()
            },
    )
}

pub open spec fn node_view(n: ParseNode) -> SNode
    decreases n,
{
    SNode {
        rule: n.rule,
        start: n.start as int,
        end: n.end as int,
        children: nodes_view(n.children@),
    }
}

impl View for ParseNode {
    type V = SNode;

    open spec fn view(&self) -> SNode {
        node_view(*self)
    }
}

/// The pointwise reading of `nodes_view`, available ambiently.
pub broadcast proof fn lemma_nodes_view(s: Seq<ParseNode>)
    ensures
        (#[trigger] nodes_view(s)).len() == s.len(),
        forall|i: int| 0 <= i < s.len() ==> #[trigger] nodes_view(s)[i] == node_view(s[i]),
{
}

/// The defining equation of `node_view`, available ambiently.
pub broadcast proof fn lemma_node_view_def(n: ParseNode)
    ensures
        #[trigger] node_view(n) == (SNode {
            rule: n.rule,
            start: n.start as int,
            end: n.end as int,
            children: nodes_view(n.children@),
        }),
{
}

/// The ambient group of the parse-tree view equations.
pub broadcast group group_parse_views {
    lemma_nodes_view,
    lemma_node_view_def,
}

/// The view of a parser result: the node's view and the position after
/// it.
pub open spec fn pres_view(r: Option<(ParseNode, usize)>) -> Option<(SNode, int)> {
    match r {
        Option::Some((n, p)) => Option::Some((node_view(n), p as int)),
        Option::None => Option::None,
    }
}

// ---------------------------------------------------------------------
// Token scanners.
// ---------------------------------------------------------------------

/// The input length remaining at `pos`, clamped at zero.
pub open spec fn rem_len(s: Seq<char>, pos: int) -> nat {
    if pos <= s.len() {
        (s.len() - pos) as nat
    } else {
        0
    }
}

/// The number of whitespace characters at `pos`.
pub open spec fn spec_ws_len(s: Seq<char>, pos: int) -> nat
    decreases s.len() - pos,
{
    if 0 <= pos < s.len() && is_ws(s[pos]) {
        1 + spec_ws_len(s, pos + 1)
    } else {
        0
    }
}

/// Whether the characters of `kw` stand at `pos` in `s`.
pub open spec fn matches_at(s: Seq<char>, pos: int, kw: Seq<char>) -> bool {
    &&& 0 <= pos
    &&& pos + kw.len() <= s.len()
    &&& forall|j: int| 0 <= j < kw.len() ==> s[pos + j] == kw[j]
}

/// Whether a word ends at `pos`: the end of input, or a character that
/// cannot continue an identifier.
pub open spec fn word_break(s: Seq<char>, pos: int) -> bool {
    pos >= s.len() || !is_ident_cont(s[pos])
}

/// Whether the keyword `kw` stands at `pos` as a whole word.
pub open spec fn word_at(s: Seq<char>, pos: int, kw: Seq<char>) -> bool {
    matches_at(s, pos, kw) && word_break(s, pos + kw.len())
}

/// The number of identifier-continuation characters at `pos`.
pub open spec fn spec_ident_cont_len(s: Seq<char>, pos: int) -> nat
    decreases s.len() - pos,
{
    if 0 <= pos < s.len() && is_ident_cont(s[pos]) {
        1 + spec_ident_cont_len(s, pos + 1)
    } else {
        0
    }
}

/// The end of the identifier starting at `pos`, or `None` where none
/// starts there.
pub open spec fn spec_ident_end(s: Seq<char>, pos: int) -> Option<int> {
    if 0 <= pos < s.len() && is_ident_start(s[pos]) {
        Option::Some(pos + 1 + spec_ident_cont_len(s, pos + 1))
    } else {
        Option::None
    }
}

/// Extends a field path from the end `e` of an identifier: consumes
/// `.` followed immediately by an identifier, as often as possible; no
/// whitespace is permitted around the dot.
pub open spec fn spec_path_end(s: Seq<char>, e: int) -> int
    decreases rem_len(s, e),
{
    if 0 <= e && e + 1 < s.len() && s[e] == '.' && is_ident_start(s[e + 1]) {
        spec_path_end(s, e + 2 + spec_ident_cont_len(s, e + 2))
    } else {
        e
    }
}

/// The field reference at `pos`: a dotted identifier path.
pub open spec fn spec_field_ref(s: Seq<char>, pos: int) -> Option<(SNode, int)> {
    match spec_ident_end(s, pos) {
        Option::Some(e0) => {
            let e = spec_path_end(s, e0);
            Option::Some((SNode { rule: Rule::FieldRef, start: pos, end: e, children: Seq::empty() }, e))
        },
        Option::None => Option::None,
    }
}

/// The number of ASCII digits at `pos`.
pub open spec fn spec_digit_len(s: Seq<char>, pos: int) -> nat
    decreases s.len() - pos,
{
    if 0 <= pos < s.len() && is_digit(s[pos]) {
        1 + spec_digit_len(s, pos + 1)
    } else {
        0
    }
}

/// The end of the number literal at `pos`: an optional leading `-`,
/// digits, an optional fraction `.` digits, and an optional exponent
/// `e`/`E` with optional sign and digits; or `None` where no digits
/// start the literal.
pub open spec fn spec_number_end(s: Seq<char>, pos: int) -> Option<int> {
    if pos < 0 {
        Option::None
    } else {
        let p0 = if pos < s.len() && s[pos] == '-' {
            pos + 1
        } else {
            pos
        };
        let d = spec_digit_len(s, p0);
        if d == 0 {
            Option::None
        } else {
            let p1 = p0 + d;
            let p2 = if p1 + 1 < s.len() && s[p1] == '.' && is_digit(s[p1 + 1]) {
                p1 + 1 + spec_digit_len(s, p1 + 1)
            } else {
                p1
            };
            let p3 = if p2 < s.len() && (s[p2] == 'e' || s[p2] == 'E') {
                let q = if p2 + 1 < s.len() && (s[p2 + 1] == '+' || s[p2 + 1] == '-') {
                    p2 + 2
                } else {
                    p2 + 1
                };
                let el = spec_digit_len(s, q);
                if el == 0 {
                    p2
                } else {
                    q + el
                }
            } else {
                p2
            };
            Option::Some(p3)
        }
    }
}

/// The position just past the string literal's closing quote, scanning
/// the content from `pos`: `\` escapes the following character; an
/// unterminated literal is `None`.
pub open spec fn spec_string_tail(s: Seq<char>, pos: int) -> Option<int>
    decreases s.len() - pos,
{
    if pos < 0 || pos >= s.len() {
        Option::None
    } else if s[pos] == '"' {
        Option::Some(pos + 1)
    } else if s[pos] == '\\' {
        if pos + 1 < s.len() {
            spec_string_tail(s, pos + 2)
        } else {
            Option::None
        }
    } else {
        spec_string_tail(s, pos + 1)
    }
}

/// The end of the string literal at `pos`, where one starts there.
pub open spec fn spec_string_end(s: Seq<char>, pos: int) -> Option<int> {
    if 0 <= pos < s.len() && s[pos] == '"' {
        spec_string_tail(s, pos + 1)
    } else {
        Option::None
    }
}

// ---------------------------------------------------------------------
// Executable token scanners.
// ---------------------------------------------------------------------

pub(crate) fn skip_ws(s: &Vec<char>, pos: usize) -> (r: usize)
    requires
        pos <= s@.len(),
    ensures
        r as int == pos + spec_ws_len(s@, pos as int),
        pos <= r <= s@.len(),
    decreases s@.len() - pos,
{
    if pos < s.len() && exec_is_ws(s[pos]) {
        skip_ws(s, pos + 1)
    } else {
        pos
    }
}

pub(crate) fn match_keyword_at(s: &Vec<char>, pos: usize, kw: &str) -> (r: bool)
    requires
        pos <= s@.len(),
    ensures
        r == matches_at(s@, pos as int, kw@),
{
    let kn = kw.unicode_len();
    let slen = s.len();
    if kn > slen - pos {
        return false;
    }
    let mut j: usize = 0;
    while j < kn
        invariant
            0 <= j <= kn,
            kn == kw@.len(),
            pos + kn <= s@.len(),
            s@.len() == slen,
            forall|jj: int| 0 <= jj < j ==> s@[pos + jj] == kw@[jj],
        decreases kn - j,
    {
        if s[pos + j] != kw.get_char(j) {
            return false;
        }
        j += 1;
    }
    true
}

pub(crate) fn match_word_at(s: &Vec<char>, pos: usize, kw: &str) -> (r: bool)
    requires
        pos <= s@.len(),
    ensures
        r == word_at(s@, pos as int, kw@),
{
    if !match_keyword_at(s, pos, kw) {
        return false;
    }
    let slen = s.len();
    let e = pos + kw.unicode_len();
    e >= slen || !exec_is_ident_cont(s[e])
}

pub(crate) fn ident_cont_len(s: &Vec<char>, pos: usize) -> (r: usize)
    requires
        pos <= s@.len(),
    ensures
        r == spec_ident_cont_len(s@, pos as int),
        pos + r <= s@.len(),
    decreases s@.len() - pos,
{
    if pos < s.len() && exec_is_ident_cont(s[pos]) {
        1 + ident_cont_len(s, pos + 1)
    } else {
        0
    }
}

pub(crate) fn ident_end(s: &Vec<char>, pos: usize) -> (r: Option<usize>)
    requires
        pos <= s@.len(),
    ensures
        match r {
            Option::Some(e) => spec_ident_end(s@, pos as int) == Option::Some(e as int) && pos < e
                <= s@.len(),
            Option::None => spec_ident_end(s@, pos as int) is None,
        },
{
    if pos < s.len() && exec_is_ident_start(s[pos]) {
        Some(pos + 1 + ident_cont_len(s, pos + 1))
    } else {
        None
    }
}

pub(crate) fn path_end(s: &Vec<char>, e: usize) -> (r: usize)
    requires
        e <= s@.len(),
    ensures
        r as int == spec_path_end(s@, e as int),
        e <= r <= s@.len(),
    decreases s@.len() - e,
{
    if e < s.len() && e + 1 < s.len() && s[e] == '.' && exec_is_ident_start(s[e + 1]) {
        path_end(s, e + 2 + ident_cont_len(s, e + 2))
    } else {
        e
    }
}

pub(crate) fn parse_field_ref(s: &Vec<char>, pos: usize) -> (r: Option<(ParseNode, usize)>)
    requires
        pos <= s@.len(),
    ensures
        pres_view(r) == spec_field_ref(s@, pos as int),
        r matches Option::Some((n, p)) ==> pos < p <= s@.len(),
{
    match ident_end(s, pos) {
        Some(e0) => {
            let e = path_end(s, e0);
            let n = ParseNode { rule: Rule::FieldRef, start: pos, end: e, children: Vec::new() };
            proof {
                assert(nodes_view(n.children@) =~= Seq::<SNode>::empty());
            }
            Some((n, e))
        },
        None => None,
    }
}

pub(crate) fn digit_len(s: &Vec<char>, pos: usize) -> (r: usize)
    requires
        pos <= s@.len(),
    ensures
        r == spec_digit_len(s@, pos as int),
        pos + r <= s@.len(),
    decreases s@.len() - pos,
{
    if pos < s.len() && exec_is_digit(s[pos]) {
        1 + digit_len(s, pos + 1)
    } else {
        0
    }
}

pub(crate) fn number_end(s: &Vec<char>, pos: usize) -> (r: Option<usize>)
    requires
        pos <= s@.len(),
    ensures
        match r {
            Option::Some(e) => spec_number_end(s@, pos as int) == Option::Some(e as int) && pos < e
                <= s@.len(),
            Option::None => spec_number_end(s@, pos as int) is None,
        },
{
    let p0: usize = if pos < s.len() && s[pos] == '-' {
        pos + 1
    } else {
        pos
    };
    let d = digit_len(s, p0);
    if d == 0 {
        return None;
    }
    let p1 = p0 + d;
    let p2: usize = if p1 < s.len() && p1 + 1 < s.len() && s[p1] == '.' && exec_is_digit(s[p1 + 1]) {
        p1 + 1 + digit_len(s, p1 + 1)
    } else {
        p1
    };
    let p3: usize = if p2 < s.len() && (s[p2] == 'e' || s[p2] == 'E') {
        let q: usize = if p2 + 1 < s.len() && (s[p2 + 1] == '+' || s[p2 + 1] == '-') {
            p2 + 2
        } else {
            p2 + 1
        };
        let el = digit_len(s, q);
        if el == 0 {
            p2
        } else {
            q + el
        }
    } else {
        p2
    };
    Some(p3)
}

pub(crate) fn string_tail(s: &Vec<char>, pos: usize) -> (r: Option<usize>)
    requires
        pos <= s@.len(),
    ensures
        match r {
            Option::Some(e) => spec_string_tail(s@, pos as int) == Option::Some(e as int) && pos
                < e <= s@.len(),
            Option::None => spec_string_tail(s@, pos as int) is None,
        },
    decreases s@.len() - pos,
{
    if pos >= s.len() {
        None
    } else if s[pos] == '"' {
        Some(pos + 1)
    } else if s[pos] == '\\' {
        if pos + 1 < s.len() {
            string_tail(s, pos + 2)
        } else {
            None
        }
    } else {
        string_tail(s, pos + 1)
    }
}

pub(crate) fn string_end(s: &Vec<char>, pos: usize) -> (r: Option<usize>)
    requires
        pos <= s@.len(),
    ensures
        match r {
            Option::Some(e) => spec_string_end(s@, pos as int) == Option::Some(e as int) && pos < e
                <= s@.len(),
            Option::None => spec_string_end(s@, pos as int) is None,
        },
{
    if pos < s.len() && s[pos] == '"' {
        string_tail(s, pos + 1)
    } else {
        None
    }
}

} // verus!

verus! {

// Keyword character sequences, written out so that their lengths are
// transparent to the verifier.
pub open spec fn kw_or() -> Seq<char> {
    seq!['o', 'r']
}

pub open spec fn kw_and() -> Seq<char> {
    seq!['a', 'n', 'd']
}

pub open spec fn kw_not() -> Seq<char> {
    seq!['n', 'o', 't']
}

pub open spec fn kw_if() -> Seq<char> {
    seq!['i', 'f']
}

pub open spec fn kw_then() -> Seq<char> {
    seq!['t', 'h', 'e', 'n']
}

pub open spec fn kw_else() -> Seq<char> {
    seq!['e', 'l', 's', 'e']
}

pub open spec fn kw_true() -> Seq<char> {
    seq!['t', 'r', 'u', 'e']
}

pub open spec fn kw_false() -> Seq<char> {
    seq!['f', 'a', 'l', 's', 'e']
}

pub open spec fn kw_where() -> Seq<char> {
    seq!['w', 'h', 'e', 'r', 'e']
}

pub open spec fn kw_allow() -> Seq<char> {
    seq!['a', 'l', 'l', 'o', 'w']
}

pub open spec fn kw_filters() -> Seq<char> {
    seq!['f', 'i', 'l', 't', 'e', 'r', 's']
}

pub open spec fn kw_on() -> Seq<char> {
    seq!['o', 'n']
}

pub open spec fn kw_ignore() -> Seq<char> {
    seq!['i', 'g', 'n', 'o', 'r', 'e']
}

pub open spec fn kw_all() -> Seq<char> {
    seq!['a', 'l', 'l']
}

pub open spec fn kw_group() -> Seq<char> {
    seq!['g', 'r', 'o', 'u', 'p']
}

pub open spec fn kw_by() -> Seq<char> {
    seq!['b', 'y']
}

pub open spec fn kw_groups() -> Seq<char> {
    seq!['g', 'r', 'o', 'u', 'p', 's']
}

pub open spec fn kw_case_u() -> Seq<char> {
    seq!['C', 'A', 'S', 'E']
}

pub open spec fn kw_when_u() -> Seq<char> {
    seq!['W', 'H', 'E', 'N']
}

pub open spec fn kw_then_u() -> Seq<char> {
    seq!['T', 'H', 'E', 'N']
}

pub open spec fn kw_else_u() -> Seq<char> {
    seq!['E', 'L', 'S', 'E']
}

pub open spec fn kw_end_u() -> Seq<char> {
    seq!['E', 'N', 'D']
}

pub(crate) fn word_or(s: &Vec<char>, pos: usize) -> (r: bool)
    requires
        pos <= s@.len(),
    ensures
        r == word_at(s@, pos as int, kw_or()),
{
    proof {
        reveal_strlit("or");
        assert("or"@ =~= kw_or());
    }
    match_word_at(s, pos, "or")
}

pub(crate) fn word_and(s: &Vec<char>, pos: usize) -> (r: bool)
    requires
        pos <= s@.len(),
    ensures
        r == word_at(s@, pos as int, kw_and()),
{
    proof {
        reveal_strlit("and");
        assert("and"@ =~= kw_and());
    }
    match_word_at(s, pos, "and")
}

pub(crate) fn word_not(s: &Vec<char>, pos: usize) -> (r: bool)
    requires
        pos <= s@.len(),
    ensures
        r == word_at(s@, pos as int, kw_not()),
{
    proof {
        reveal_strlit("not");
        assert("not"@ =~= kw_not());
    }
    match_word_at(s, pos, "not")
}

pub(crate) fn word_if(s: &Vec<char>, pos: usize) -> (r: bool)
    requires
        pos <= s@.len(),
    ensures
        r == word_at(s@, pos as int, kw_if()),
{
    proof {
        reveal_strlit("if");
        assert("if"@ =~= kw_if());
    }
    match_word_at(s, pos, "if")
}

pub(crate) fn word_then(s: &Vec<char>, pos: usize) -> (r: bool)
    requires
        pos <= s@.len(),
    ensures
        r == word_at(s@, pos as int, kw_then()),
{
    proof {
        reveal_strlit("then");
        assert("then"@ =~= kw_then());
    }
    match_word_at(s, pos, "then")
}

pub(crate) fn word_else(s: &Vec<char>, pos: usize) -> (r: bool)
    requires
        pos <= s@.len(),
    ensures
        r == word_at(s@, pos as int, kw_else()),
{
    proof {
        reveal_strlit("else");
        assert("else"@ =~= kw_else());
    }
    match_word_at(s, pos, "else")
}

pub(crate) fn word_true(s: &Vec<char>, pos: usize) -> (r: bool)
    requires
        pos <= s@.len(),
    ensures
        r == word_at(s@, pos as int, kw_true()),
{
    proof {
        reveal_strlit("true");
        assert("true"@ =~= kw_true());
    }
    match_word_at(s, pos, "true")
}

pub(crate) fn word_false(s: &Vec<char>, pos: usize) -> (r: bool)
    requires
        pos <= s@.len(),
    ensures
        r == word_at(s@, pos as int, kw_false()),
{
    proof {
        reveal_strlit("false");
        assert("false"@ =~= kw_false());
    }
    match_word_at(s, pos, "false")
}

pub(crate) fn word_where(s: &Vec<char>, pos: usize) -> (r: bool)
    requires
        pos <= s@.len(),
    ensures
        r == word_at(s@, pos as int, kw_where()),
{
    proof {
        reveal_strlit("where");
        assert("where"@ =~= kw_where());
    }
    match_word_at(s, pos, "where")
}

pub(crate) fn word_allow(s: &Vec<char>, pos: usize) -> (r: bool)
    requires
        pos <= s@.len(),
    ensures
        r == word_at(s@, pos as int, kw_allow()),
{
    proof {
        reveal_strlit("allow");
        assert("allow"@ =~= kw_allow());
    }
    match_word_at(s, pos, "allow")
}

pub(crate) fn word_filters(s: &Vec<char>, pos: usize) -> (r: bool)
    requires
        pos <= s@.len(),
    ensures
        r == word_at(s@, pos as int, kw_filters()),
{
    proof {
        reveal_strlit("filters");
        assert("filters"@ =~= kw_filters());
    }
    match_word_at(s, pos, "filters")
}

pub(crate) fn word_on(s: &Vec<char>, pos: usize) -> (r: bool)
    requires
        pos <= s@.len(),
    ensures
        r == word_at(s@, pos as int, kw_on()),
{
    proof {
        reveal_strlit("on");
        assert("on"@ =~= kw_on());
    }
    match_word_at(s, pos, "on")
}

pub(crate) fn word_ignore(s: &Vec<char>, pos: usize) -> (r: bool)
    requires
        pos <= s@.len(),
    ensures
        r == word_at(s@, pos as int, kw_ignore()),
{
    proof {
        reveal_strlit("ignore");
        assert("ignore"@ =~= kw_ignore());
    }
    match_word_at(s, pos, "ignore")
}

pub(crate) fn word_all(s: &Vec<char>, pos: usize) -> (r: bool)
    requires
        pos <= s@.len(),
    ensures
        r == word_at(s@, pos as int, kw_all()),
{
    proof {
        reveal_strlit("all");
        assert("all"@ =~= kw_all());
    }
    match_word_at(s, pos, "all")
}

pub(crate) fn word_group(s: &Vec<char>, pos: usize) -> (r: bool)
    requires
        pos <= s@.len(),
    ensures
        r == word_at(s@, pos as int, kw_group()),
{
    proof {
        reveal_strlit("group");
        assert("group"@ =~= kw_group());
    }
    match_word_at(s, pos, "group")
}

pub(crate) fn word_by(s: &Vec<char>, pos: usize) -> (r: bool)
    requires
        pos <= s@.len(),
    ensures
        r == word_at(s@, pos as int, kw_by()),
{
    proof {
        reveal_strlit("by");
        assert("by"@ =~= kw_by());
    }
    match_word_at(s, pos, "by")
}

pub(crate) fn word_groups(s: &Vec<char>, pos: usize) -> (r: bool)
    requires
        pos <= s@.len(),
    ensures
        r == word_at(s@, pos as int, kw_groups()),
{
    proof {
        reveal_strlit("groups");
        assert("groups"@ =~= kw_groups());
    }
    match_word_at(s, pos, "groups")
}

pub(crate) fn word_case_u(s: &Vec<char>, pos: usize) -> (r: bool)
    requires
        pos <= s@.len(),
    ensures
        r == word_at(s@, pos as int, kw_case_u()),
{
    proof {
        reveal_strlit("CASE");
        assert("CASE"@ =~= kw_case_u());
    }
    match_word_at(s, pos, "CASE")
}

pub(crate) fn word_when_u(s: &Vec<char>, pos: usize) -> (r: bool)
    requires
        pos <= s@.len(),
    ensures
        r == word_at(s@, pos as int, kw_when_u()),
{
    proof {
        reveal_strlit("WHEN");
        assert("WHEN"@ =~= kw_when_u());
    }
    match_word_at(s, pos, "WHEN")
}

pub(crate) fn word_then_u(s: &Vec<char>, pos: usize) -> (r: bool)
    requires
        pos <= s@.len(),
    ensures
        r == word_at(s@, pos as int, kw_then_u()),
{
    proof {
        reveal_strlit("THEN");
        assert("THEN"@ =~= kw_then_u());
    }
    match_word_at(s, pos, "THEN")
}

pub(crate) fn word_else_u(s: &Vec<char>, pos: usize) -> (r: bool)
    requires
        pos <= s@.len(),
    ensures
        r == word_at(s@, pos as int, kw_else_u()),
{
    proof {
        reveal_strlit("ELSE");
        assert("ELSE"@ =~= kw_else_u());
    }
    match_word_at(s, pos, "ELSE")
}

pub(crate) fn word_end_u(s: &Vec<char>, pos: usize) -> (r: bool)
    requires
        pos <= s@.len(),
    ensures
        r == word_at(s@, pos as int, kw_end_u()),
{
    proof {
        reveal_strlit("END");
        assert("END"@ =~= kw_end_u());
    }
    match_word_at(s, pos, "END")
}

} // verus!

verus! {

// ---------------------------------------------------------------------
// The precedence levels.
//
// Levels are numbered 0 (`or`, loosest) to 4 (`*` `/`, tightest);
// unary `not` sits between levels 1 and 2. The mutually recursive
// parsers terminate by a lexicographic measure: remaining input first,
// then a fixed rank per function.
// ---------------------------------------------------------------------

pub open spec fn level_rank(lvl: u8) -> nat {
    (90 - 6 * (if lvl <= 4 { lvl as nat } else { 4 })) as nat
}

pub open spec fn tail_rank(lvl: u8) -> nat {
    (88 - 6 * (if lvl <= 4 { lvl as nat } else { 4 })) as nat
}

pub open spec fn operand_rank(lvl: u8) -> nat {
    (86 - 6 * (if lvl <= 4 { lvl as nat } else { 4 })) as nat
}

/// The operator token of the given level at `pos`, after leading
/// whitespace: its node and the position after it.
pub open spec fn spec_level_op(s: Seq<char>, pos: int, lvl: u8) -> Option<(SNode, int)> {
    let w = pos + spec_ws_len(s, pos);
    let oplen: int = if lvl == 0 {
        if word_at(s, w, kw_or()) {
            2
        } else {
            0
        }
    } else if lvl == 1 {
        if word_at(s, w, kw_and()) {
            3
        } else {
            0
        }
    } else if lvl == 2 {
        if matches_at(s, w, seq!['<', '=']) || matches_at(s, w, seq!['>', '=']) || matches_at(s, w, seq!['<', '>']) {
            2
        } else if matches_at(s, w, seq!['<']) || matches_at(s, w, seq!['>']) || matches_at(s, w, seq!['=']) {
            1
        } else {
            0
        }
    } else if lvl == 3 {
        if matches_at(s, w, seq!['+']) || matches_at(s, w, seq!['-']) {
            1
        } else {
            0
        }
    } else {
        if matches_at(s, w, seq!['*']) || matches_at(s, w, seq!['/']) {
            1
        } else {
            0
        }
    };
    if oplen == 0 {
        Option::None
    } else {
        Option::Some(
            (SNode { rule: Rule::OpToken, start: w, end: w + oplen, children: Seq::empty() }, w + oplen),
        )
    }
}

/// One whole binary level: an operand, then as many
/// `(operator, operand)` pairs as stand there. A level with a single
/// operand is that operand itself; otherwise a `BinaryChain` node.
pub open spec fn spec_parse_level(s: Seq<char>, pos: int, lvl: u8) -> Option<(SNode, int)>
    decreases rem_len(s, pos), level_rank(lvl),
{
    match spec_parse_operand(s, pos, lvl) {
        Option::None => Option::None,
        Option::Some((first, p1)) => {
            if pos <= p1 {
                let (pairs, p2) = spec_parse_tail(s, p1, lvl);
                if pairs.len() == 0 {
                    Option::Some((first, p1))
                } else {
                    Option::Some(
                        (SNode {
                            rule: Rule::BinaryChain,
                            start: first.start,
                            end: p2,
                            children: seq![first] + pairs,
                        }, p2),
                    )
                }
            } else {
                Option::None
            }
        },
    }
}

/// The `(operator, operand)` pairs of one level from `pos` on, flat in
/// order, and the position after the last operand.
pub open spec fn spec_parse_tail(s: Seq<char>, pos: int, lvl: u8) -> (Seq<SNode>, int)
    decreases rem_len(s, pos), tail_rank(lvl),
{
    match spec_level_op(s, pos, lvl) {
        Option::None => (Seq::empty(), pos),
        Option::Some((opn, po)) => {
            if pos < po {
                match spec_parse_operand(s, po, lvl) {
                    Option::None => (Seq::empty(), pos),
                    Option::Some((n, p2)) => {
                        if p2 > po {
                            let (rest, pe) = spec_parse_tail(s, p2, lvl);
                            (seq![opn, n] + rest, pe)
                        } else {
                            (Seq::empty(), pos)
                        }
                    },
                }
            } else {
                (Seq::empty(), pos)
            }
        },
    }
}

/// The operand of one level: the next tighter level, `not` under
/// `and`, a primary under the tightest.
pub open spec fn spec_parse_operand(s: Seq<char>, pos: int, lvl: u8) -> Option<(SNode, int)>
    decreases rem_len(s, pos), operand_rank(lvl),
{
    if lvl == 0 {
        spec_parse_level(s, pos, 1)
    } else if lvl == 1 {
        spec_parse_not(s, pos)
    } else if lvl == 2 {
        spec_parse_level(s, pos, 3)
    } else if lvl == 3 {
        spec_parse_level(s, pos, 4)
    } else {
        spec_parse_primary(s, pos)
    }
}

/// Unary `not`: the keyword applied to a comparison-level operand, or
/// that operand alone.
pub open spec fn spec_parse_not(s: Seq<char>, pos: int) -> Option<(SNode, int)>
    decreases rem_len(s, pos), 79nat,
{
    let w = pos + spec_ws_len(s, pos);
    if word_at(s, w, kw_not()) {
        match spec_parse_level(s, w + 3, 2) {
            Option::Some((n, p)) => Option::Some(
                (SNode { rule: Rule::NotExpr, start: w, end: p, children: seq![n] }, p),
            ),
            Option::None => spec_parse_level(s, pos, 2),
        }
    } else {
        spec_parse_level(s, pos, 2)
    }
}

/// A primary: an `if`, a `CASE`, a boolean, a function call, a field
/// reference, a number, a string, or a parenthesized expression — in
/// that order of preference — followed by its bracketed modifiers.
pub open spec fn spec_parse_primary(s: Seq<char>, pos: int) -> Option<(SNode, int)>
    decreases rem_len(s, pos), 60nat,
{
    let w = pos + spec_ws_len(s, pos);
    let core: Option<(SNode, int)> = if word_at(s, w, kw_if()) && spec_parse_if(s, w) is Some {
        spec_parse_if(s, w)
    } else if word_at(s, w, kw_case_u()) && spec_parse_case(s, w) is Some {
        spec_parse_case(s, w)
    } else if word_at(s, w, kw_true()) {
        Option::Some(
            (SNode { rule: Rule::BoolTok, start: w, end: w + 4, children: Seq::empty() }, w + 4),
        )
    } else if word_at(s, w, kw_false()) {
        Option::Some(
            (SNode { rule: Rule::BoolTok, start: w, end: w + 5, children: Seq::empty() }, w + 5),
        )
    } else if spec_parse_func_call(s, w) is Some {
        spec_parse_func_call(s, w)
    } else if spec_field_ref(s, w) is Some {
        spec_field_ref(s, w)
    } else if spec_number_end(s, w) is Some {
        let e = spec_number_end(s, w)->Some_0;
        Option::Some(
            (SNode { rule: Rule::NumberTok, start: w, end: e, children: Seq::empty() }, e),
        )
    } else if spec_string_end(s, w) is Some {
        let e = spec_string_end(s, w)->Some_0;
        Option::Some(
            (SNode { rule: Rule::StringTok, start: w, end: e, children: Seq::empty() }, e),
        )
    } else if w < s.len() && s[w] == '(' {
        match spec_parse_level(s, w + 1, 0) {
            Option::Some((n, p)) => {
                let c = p + spec_ws_len(s, p);
                if c < s.len() && s[c] == ')' {
                    Option::Some((n, c + 1))
                } else {
                    Option::None
                }
            },
            Option::None => Option::None,
        }
    } else {
        Option::None
    };
    match core {
        Option::Some((n, p)) => {
            if p > pos {
                Option::Some(spec_with_modifiers(s, p, n))
            } else {
                Option::None
            }
        },
        Option::None => Option::None,
    }
}

/// An `if` expression, in either surface form:
/// `if <cond> then <expr> else <expr>` or `if(<cond>, <expr>, <expr>)`.
pub open spec fn spec_parse_if(s: Seq<char>, pos: int) -> Option<(SNode, int)>
    decreases rem_len(s, pos), 58nat,
{
    if word_at(s, pos, kw_if()) {
        match spec_if_call_form(s, pos) {
            Option::Some(r) => Option::Some(r),
            Option::None => spec_if_then_form(s, pos),
        }
    } else {
        Option::None
    }
}

/// The call form `if(<cond>, <expr>, <expr>)`.
pub open spec fn spec_if_call_form(s: Seq<char>, pos: int) -> Option<(SNode, int)>
    decreases rem_len(s, pos), 57nat,
{
    let w = pos + 2 + spec_ws_len(s, pos + 2);
    if w < s.len() && s[w] == '(' {
        match spec_parse_level(s, w + 1, 0) {
            Option::Some((c, p1)) => {
                let q1 = p1 + spec_ws_len(s, p1);
                if q1 > pos && q1 < s.len() && s[q1] == ',' {
                    match spec_parse_level(s, q1 + 1, 0) {
                        Option::Some((t, p2)) => {
                            let q2 = p2 + spec_ws_len(s, p2);
                            if q2 > pos && q2 < s.len() && s[q2] == ',' {
                                match spec_parse_level(s, q2 + 1, 0) {
                                    Option::Some((e, p3)) => {
                                        let q3 = p3 + spec_ws_len(s, p3);
                                        if q3 < s.len() && s[q3] == ')' {
                                            Option::Some(
                                                (SNode {
                                                    rule: Rule::IfNode,
                                                    start: pos,
                                                    end: q3 + 1,
                                                    children: seq![c, t, e],
                                                }, q3 + 1),
                                            )
                                        } else {
                                            Option::None
                                        }
                                    },
                                    Option::None => Option::None,
                                }
                            } else {
                                Option::None
                            }
                        },
                        Option::None => Option::None,
                    }
                } else {
                    Option::None
                }
            },
            Option::None => Option::None,
        }
    } else {
        Option::None
    }
}

/// The keyword form `if <cond> then <expr> else <expr>`.
pub open spec fn spec_if_then_form(s: Seq<char>, pos: int) -> Option<(SNode, int)>
    decreases rem_len(s, pos), 55nat,
{
    if !word_at(s, pos, kw_if()) {
        Option::None
    } else {
        match spec_parse_level(s, pos + 2, 0) {
            Option::Some((c, p1)) => {
                let w1 = p1 + spec_ws_len(s, p1);
                if w1 > pos && word_at(s, w1, kw_then()) {
                    match spec_parse_level(s, w1 + 4, 0) {
                        Option::Some((t, p2)) => {
                            let w2 = p2 + spec_ws_len(s, p2);
                            if w2 > pos && word_at(s, w2, kw_else()) {
                                match spec_parse_level(s, w2 + 4, 0) {
                                    Option::Some((e, p3)) => Option::Some(
                                        (SNode {
                                            rule: Rule::IfNode,
                                            start: pos,
                                            end: p3,
                                            children: seq![c, t, e],
                                        }, p3),
                                    ),
                                    Option::None => Option::None,
                                }
                            } else {
                                Option::None
                            }
                        },
                        Option::None => Option::None,
                    }
                } else {
                    Option::None
                }
            },
            Option::None => Option::None,
        }
    }
}


/// A `CASE` expression: one or more `WHEN ... THEN ...` branches, a
/// mandatory `ELSE` expression, `END`.
pub open spec fn spec_parse_case(s: Seq<char>, pos: int) -> Option<(SNode, int)>
    decreases rem_len(s, pos), 56nat,
{
    if word_at(s, pos, kw_case_u()) {
        let (branches, p) = spec_case_branches(s, pos + 4);
        if branches.len() >= 1 && p > pos {
            let we = p + spec_ws_len(s, p);
            if word_at(s, we, kw_else_u()) {
                match spec_parse_level(s, we + 4, 0) {
                    Option::Some((e, p2)) => {
                        let wn = p2 + spec_ws_len(s, p2);
                        if wn > pos && word_at(s, wn, kw_end_u()) {
                            Option::Some(
                                (SNode {
                                    rule: Rule::CaseNode,
                                    start: pos,
                                    end: wn + 3,
                                    children: branches + seq![e],
                                }, wn + 3),
                            )
                        } else {
                            Option::None
                        }
                    },
                    Option::None => Option::None,
                }
            } else {
                Option::None
            }
        } else {
            Option::None
        }
    } else {
        Option::None
    }
}

/// The `WHEN ... THEN ...` branches from `pos` on, as `CaseWhen`
/// nodes, and the position after the last one.
pub open spec fn spec_case_branches(s: Seq<char>, pos: int) -> (Seq<SNode>, int)
    decreases rem_len(s, pos), 111nat,
{
    let w = pos + spec_ws_len(s, pos);
    if word_at(s, w, kw_when_u()) {
        match spec_parse_level(s, w + 4, 0) {
            Option::Some((c, p1)) => {
                let wt = p1 + spec_ws_len(s, p1);
                if wt > pos && word_at(s, wt, kw_then_u()) {
                    match spec_parse_level(s, wt + 4, 0) {
                        Option::Some((r, p2)) => {
                            if p2 > pos {
                                let (rest, pe) = spec_case_branches(s, p2);
                                (seq![
                                    SNode {
                                        rule: Rule::CaseWhen,
                                        start: w,
                                        end: p2,
                                        children: seq![c, r],
                                    },
                                ] + rest, pe)
                            } else {
                                (Seq::empty(), pos)
                            }
                        },
                        Option::None => (Seq::empty(), pos),
                    }
                } else {
                    (Seq::empty(), pos)
                }
            },
            Option::None => (Seq::empty(), pos),
        }
    } else {
        (Seq::empty(), pos)
    }
}

/// A function call: a name, `(`, zero or more comma-separated
/// arguments, `)` — no leading, trailing or doubled commas.
pub open spec fn spec_parse_func_call(s: Seq<char>, pos: int) -> Option<(SNode, int)>
    decreases rem_len(s, pos), 54nat,
{
    match spec_ident_end(s, pos) {
        Option::Some(e0) => {
            let w = e0 + spec_ws_len(s, e0);
            if w < s.len() && s[w] == '(' {
                match spec_parse_args(s, w + 1) {
                    Option::Some((args, p)) => {
                        let c = p + spec_ws_len(s, p);
                        if c < s.len() && s[c] == ')' {
                            Option::Some(
                                (SNode {
                                    rule: Rule::FuncCall,
                                    start: pos,
                                    end: c + 1,
                                    children: seq![
                                        SNode {
                                            rule: Rule::Ident,
                                            start: pos,
                                            end: e0,
                                            children: Seq::empty(),
                                        },
                                    ] + args,
                                }, c + 1),
                            )
                        } else {
                            Option::None
                        }
                    },
                    Option::None => Option::None,
                }
            } else {
                Option::None
            }
        },
        Option::None => Option::None,
    }
}

/// The argument list after `(`: empty, or expressions separated by
/// single commas; the closing `)` is left unconsumed.
pub open spec fn spec_parse_args(s: Seq<char>, pos: int) -> Option<(Seq<SNode>, int)>
    decreases rem_len(s, pos), 110nat,
{
    match spec_parse_level(s, pos, 0) {
        Option::None => Option::Some((Seq::empty(), pos)),
        Option::Some((n, p1)) => {
            if p1 >= pos {
                let (rest, pe) = spec_args_tail(s, p1);
                Option::Some((seq![n] + rest, pe))
            } else {
                Option::Some((Seq::empty(), pos))
            }
        },
    }
}

/// The `, <expr>` continuations of an argument list.
pub open spec fn spec_args_tail(s: Seq<char>, pos: int) -> (Seq<SNode>, int)
    decreases rem_len(s, pos), 109nat,
{
    let w = pos + spec_ws_len(s, pos);
    if w < s.len() && s[w] == ',' {
        match spec_parse_level(s, w + 1, 0) {
            Option::Some((n, p)) => {
                if p > pos {
                    let (rest, pe) = spec_args_tail(s, p);
                    (seq![n] + rest, pe)
                } else {
                    (Seq::empty(), pos)
                }
            },
            Option::None => (Seq::empty(), pos),
        }
    } else {
        (Seq::empty(), pos)
    }
}

} // verus!

verus! {

// ---------------------------------------------------------------------
// Bracketed modifiers: `[group by ...]` and `[where ...]`.
// ---------------------------------------------------------------------

/// Attaches the bracketed clauses that follow a primary: a `group by`
/// clause (function calls only), then a `where` clause, each optional.
/// Without either, the primary stands unchanged.
pub open spec fn spec_with_modifiers(s: Seq<char>, pos: int, core: SNode) -> (SNode, int)
    decreases rem_len(s, pos), 50nat,
{
    let gr: Option<(SNode, int)> = if core.rule == Rule::FuncCall {
        spec_parse_group(s, pos)
    } else {
        Option::None
    };
    let p1: int = match gr {
        Option::Some((g, pg)) => if pg >= pos {
            pg
        } else {
            pos
        },
        Option::None => pos,
    };
    let wr: Option<(SNode, int)> = spec_parse_where(s, p1);
    let p2: int = match wr {
        Option::Some((wn, pw)) => if pw >= p1 {
            pw
        } else {
            p1
        },
        Option::None => p1,
    };
    let gkept: Option<SNode> = match gr {
        Option::Some((g, pg)) => if pg >= pos {
            Option::Some(g)
        } else {
            Option::None
        },
        Option::None => Option::None,
    };
    let wkept: Option<SNode> = match wr {
        Option::Some((wn, pw)) => if pw >= p1 {
            Option::Some(wn)
        } else {
            Option::None
        },
        Option::None => Option::None,
    };
    if gkept is None && wkept is None {
        (core, pos)
    } else {
        let mods: Seq<SNode> = (match gkept {
            Option::Some(g) => seq![g],
            Option::None => Seq::empty(),
        }) + (match wkept {
            Option::Some(wn) => seq![wn],
            Option::None => Seq::empty(),
        });
        (SNode { rule: Rule::Modified, start: core.start, end: p2, children: seq![core] + mods }, p2)
    }
}

/// A `where` clause: `[where <context form or filter> (and <filter>)*]`.
pub open spec fn spec_parse_where(s: Seq<char>, pos: int) -> Option<(SNode, int)>
    decreases rem_len(s, pos), 46nat,
{
    let w = pos + spec_ws_len(s, pos);
    if w < s.len() && s[w] == '[' {
        let w2 = w + 1 + spec_ws_len(s, w + 1);
        if word_at(s, w2, kw_where()) {
            match spec_where_first(s, w2 + 5) {
                Option::Some((first, p1)) => {
                    if p1 > pos {
                        let (filters, p2) = spec_filters_tail(s, p1);
                        let c = p2 + spec_ws_len(s, p2);
                        if c < s.len() && s[c] == ']' {
                            Option::Some(
                                (SNode {
                                    rule: Rule::WhereNode,
                                    start: w,
                                    end: c + 1,
                                    children: seq![first] + filters,
                                }, c + 1),
                            )
                        } else {
                            Option::None
                        }
                    } else {
                        Option::None
                    }
                },
                Option::None => Option::None,
            }
        } else {
            Option::None
        }
    } else {
        Option::None
    }
}

/// The first member of a `where` clause: an `allow filters on` form, an
/// `ignore ...` form, or — where neither keyword form stands — the
/// first filter expression itself.
pub open spec fn spec_where_first(s: Seq<char>, pos: int) -> Option<(SNode, int)>
    decreases rem_len(s, pos), 112nat,
{
    if spec_allow_form(s, pos) is Some {
        spec_allow_form(s, pos)
    } else if spec_ignore_form(s, pos) is Some {
        spec_ignore_form(s, pos)
    } else {
        spec_parse_level(s, pos, 0)
    }
}

/// `allow filters on <field> (, <field>)*`.
pub open spec fn spec_allow_form(s: Seq<char>, pos: int) -> Option<(SNode, int)>
    decreases rem_len(s, pos), 104nat,
{
    let w = pos + spec_ws_len(s, pos);
    if word_at(s, w, kw_allow()) {
        let w2 = w + 5 + spec_ws_len(s, w + 5);
        if word_at(s, w2, kw_filters()) {
            let w3 = w2 + 7 + spec_ws_len(s, w2 + 7);
            if word_at(s, w3, kw_on()) {
                let fp = w3 + 2 + spec_ws_len(s, w3 + 2);
                match spec_field_ref(s, fp) {
                    Option::Some((n, e)) => {
                        if e > pos {
                            let (more, pe) = spec_ident_list_tail(s, e);
                            Option::Some(
                                (SNode {
                                    rule: Rule::AllowFilters,
                                    start: w,
                                    end: pe,
                                    children: seq![n] + more,
                                }, pe),
                            )
                        } else {
                            Option::None
                        }
                    },
                    Option::None => Option::None,
                }
            } else {
                Option::None
            }
        } else {
            Option::None
        }
    } else {
        Option::None
    }
}

/// `ignore all filters`, or `ignore filters on <field> (, <field>)*`.
pub open spec fn spec_ignore_form(s: Seq<char>, pos: int) -> Option<(SNode, int)>
    decreases rem_len(s, pos), 103nat,
{
    let w = pos + spec_ws_len(s, pos);
    if word_at(s, w, kw_ignore()) {
        let w2 = w + 6 + spec_ws_len(s, w + 6);
        if word_at(s, w2, kw_all()) {
            let w3 = w2 + 3 + spec_ws_len(s, w2 + 3);
            if word_at(s, w3, kw_filters()) {
                Option::Some(
                    (SNode {
                        rule: Rule::IgnoreAllFilters,
                        start: w,
                        end: w3 + 7,
                        children: Seq::empty(),
                    }, w3 + 7),
                )
            } else {
                Option::None
            }
        } else if word_at(s, w2, kw_filters()) {
            let w3 = w2 + 7 + spec_ws_len(s, w2 + 7);
            if word_at(s, w3, kw_on()) {
                let fp = w3 + 2 + spec_ws_len(s, w3 + 2);
                match spec_field_ref(s, fp) {
                    Option::Some((n, e)) => {
                        if e > pos {
                            let (more, pe) = spec_ident_list_tail(s, e);
                            Option::Some(
                                (SNode {
                                    rule: Rule::IgnoreFilters,
                                    start: w,
                                    end: pe,
                                    children: seq![n] + more,
                                }, pe),
                            )
                        } else {
                            Option::None
                        }
                    },
                    Option::None => Option::None,
                }
            } else {
                Option::None
            }
        } else {
            Option::None
        }
    } else {
        Option::None
    }
}

/// The `, <field>` continuations of a field list.
pub open spec fn spec_ident_list_tail(s: Seq<char>, pos: int) -> (Seq<SNode>, int)
    decreases rem_len(s, pos), 108nat,
{
    let w = pos + spec_ws_len(s, pos);
    if w < s.len() && s[w] == ',' {
        let fp = w + 1 + spec_ws_len(s, w + 1);
        match spec_field_ref(s, fp) {
            Option::Some((n, e)) => {
                if e > pos {
                    let (rest, pe) = spec_ident_list_tail(s, e);
                    (seq![n] + rest, pe)
                } else {
                    (Seq::empty(), pos)
                }
            },
            Option::None => (Seq::empty(), pos),
        }
    } else {
        (Seq::empty(), pos)
    }
}

/// The `and <filter>` continuations of a `where` clause.
pub open spec fn spec_filters_tail(s: Seq<char>, pos: int) -> (Seq<SNode>, int)
    decreases rem_len(s, pos), 107nat,
{
    let w = pos + spec_ws_len(s, pos);
    if word_at(s, w, kw_and()) {
        match spec_parse_level(s, w + 3, 0) {
            Option::Some((n, p)) => {
                if p > pos {
                    let (rest, pe) = spec_filters_tail(s, p);
                    (seq![n] + rest, pe)
                } else {
                    (Seq::empty(), pos)
                }
            },
            Option::None => (Seq::empty(), pos),
        }
    } else {
        (Seq::empty(), pos)
    }
}

/// A `group by` clause: `[group by all groups]` or
/// `[group by <ref> (, <ref>)*]`.
pub open spec fn spec_parse_group(s: Seq<char>, pos: int) -> Option<(SNode, int)>
    decreases rem_len(s, pos), 48nat,
{
    let w = pos + spec_ws_len(s, pos);
    if w < s.len() && s[w] == '[' {
        let w2 = w + 1 + spec_ws_len(s, w + 1);
        if word_at(s, w2, kw_group()) {
            let w3 = w2 + 5 + spec_ws_len(s, w2 + 5);
            if word_at(s, w3, kw_by()) {
                let wa = w3 + 2 + spec_ws_len(s, w3 + 2);
                if word_at(s, wa, kw_all()) && word_at(
                    s,
                    wa + 3 + spec_ws_len(s, wa + 3),
                    kw_groups(),
                ) {
                    let wb = wa + 3 + spec_ws_len(s, wa + 3);
                    let c = wb + 6 + spec_ws_len(s, wb + 6);
                    if c < s.len() && s[c] == ']' {
                        Option::Some(
                            (SNode {
                                rule: Rule::GroupNode,
                                start: w,
                                end: c + 1,
                                children: seq![
                                    SNode {
                                        rule: Rule::AllGroupsTok,
                                        start: wa,
                                        end: wb + 6,
                                        children: Seq::empty(),
                                    },
                                ],
                            }, c + 1),
                        )
                    } else {
                        Option::None
                    }
                } else {
                    match spec_group_ref(s, w3 + 2) {
                        Option::Some((r1, p1)) => {
                            if p1 > pos {
                                let (more, p2) = spec_group_refs_tail(s, p1);
                                let c = p2 + spec_ws_len(s, p2);
                                if c < s.len() && s[c] == ']' {
                                    Option::Some(
                                        (SNode {
                                            rule: Rule::GroupNode,
                                            start: w,
                                            end: c + 1,
                                            children: seq![r1] + more,
                                        }, c + 1),
                                    )
                                } else {
                                    Option::None
                                }
                            } else {
                                Option::None
                            }
                        },
                        Option::None => Option::None,
                    }
                }
            } else {
                Option::None
            }
        } else {
            Option::None
        }
    } else {
        Option::None
    }
}

/// One grouping reference: `group(<integer>)` by position, else an
/// arbitrary dimension expression.
pub open spec fn spec_group_ref(s: Seq<char>, pos: int) -> Option<(SNode, int)>
    decreases rem_len(s, pos), 106nat,
{
    let w = pos + spec_ws_len(s, pos);
    let query: Option<(SNode, int)> = if word_at(s, w, kw_group()) {
        let wq = w + 5 + spec_ws_len(s, w + 5);
        if wq < s.len() && s[wq] == '(' {
            let wn = wq + 1 + spec_ws_len(s, wq + 1);
            let d = spec_digit_len(s, wn);
            if d >= 1 {
                let ce = wn + d + spec_ws_len(s, wn + d);
                if ce < s.len() && s[ce] == ')' {
                    Option::Some(
                        (SNode {
                            rule: Rule::QueryGroupRef,
                            start: w,
                            end: ce + 1,
                            children: seq![
                                SNode {
                                    rule: Rule::NumberTok,
                                    start: wn,
                                    end: wn + d,
                                    children: Seq::empty(),
                                },
                            ],
                        }, ce + 1),
                    )
                } else {
                    Option::None
                }
            } else {
                Option::None
            }
        } else {
            Option::None
        }
    } else {
        Option::None
    };
    if query is Some {
        query
    } else {
        spec_parse_level(s, pos, 0)
    }
}

/// The `, <ref>` continuations of a grouping reference list.
pub open spec fn spec_group_refs_tail(s: Seq<char>, pos: int) -> (Seq<SNode>, int)
    decreases rem_len(s, pos), 105nat,
{
    let w = pos + spec_ws_len(s, pos);
    if w < s.len() && s[w] == ',' {
        match spec_group_ref(s, w + 1) {
            Option::Some((n, p)) => {
                if p > pos {
                    let (rest, pe) = spec_group_refs_tail(s, p);
                    (seq![n] + rest, pe)
                } else {
                    (Seq::empty(), pos)
                }
            },
            Option::None => (Seq::empty(), pos),
        }
    } else {
        (Seq::empty(), pos)
    }
}

/// The whole input: one expression and nothing but whitespace after it.
pub open spec fn spec_parse_input(s: Seq<char>) -> Option<SNode>
    decreases rem_len(s, 0), 120nat,
{
    match spec_parse_level(s, 0, 0) {
        Option::Some((n, p)) => {
            if 0 <= p <= s.len() && p + spec_ws_len(s, p) == s.len() {
                Option::Some(n)
            } else {
                Option::None
            }
        },
        Option::None => Option::None,
    }
}

} // verus!

verus! {

// ---------------------------------------------------------------------
// Node constructors.
// ---------------------------------------------------------------------

fn mk_leaf(rule: Rule, start: usize, end: usize) -> (n: ParseNode)
    ensures
        n@ == (SNode { rule, start: start as int, end: end as int, children: Seq::<SNode>::empty() }),
{
    let n = ParseNode { rule, start, end, children: Vec::new() };
    proof {
        assert(nodes_view(n.children@) =~= Seq::<SNode>::empty());
    }
    n
}

fn mk_node1(rule: Rule, start: usize, end: usize, c: ParseNode) -> (n: ParseNode)
    ensures
        n@ == (SNode { rule, start: start as int, end: end as int, children: seq![c@] }),
{
    let ghost c0 = c@;
    let mut ch: Vec<ParseNode> = Vec::new();
    ch.push(c);
    let n = ParseNode { rule, start, end, children: ch };
    proof {
        assert(nodes_view(n.children@) =~= seq![c0]);
    }
    n
}

fn mk_node2(rule: Rule, start: usize, end: usize, c1: ParseNode, c2: ParseNode) -> (n: ParseNode)
    ensures
        n@ == (SNode { rule, start: start as int, end: end as int, children: seq![c1@, c2@] }),
{
    let ghost v1 = c1@;
    let ghost v2 = c2@;
    let mut ch: Vec<ParseNode> = Vec::new();
    ch.push(c1);
    ch.push(c2);
    let n = ParseNode { rule, start, end, children: ch };
    proof {
        assert(nodes_view(n.children@) =~= seq![v1, v2]);
    }
    n
}

fn mk_node3(rule: Rule, start: usize, end: usize, c1: ParseNode, c2: ParseNode, c3: ParseNode) -> (n:
    ParseNode)
    ensures
        n@ == (SNode {
            rule,
            start: start as int,
            end: end as int,
            children: seq![c1@, c2@, c3@],
        }),
{
    let ghost v1 = c1@;
    let ghost v2 = c2@;
    let ghost v3 = c3@;
    let mut ch: Vec<ParseNode> = Vec::new();
    ch.push(c1);
    ch.push(c2);
    ch.push(c3);
    let n = ParseNode { rule, start, end, children: ch };
    proof {
        assert(nodes_view(n.children@) =~= seq![v1, v2, v3]);
    }
    n
}

/// `first` followed by `rest`, as one child list.
fn one_plus(first: ParseNode, rest: Vec<ParseNode>) -> (v: Vec<ParseNode>)
    ensures
        nodes_view(v@) == seq![first@] + nodes_view(rest@),
{
    let ghost f0 = first@;
    let ghost r0 = rest@;
    let mut v: Vec<ParseNode> = Vec::new();
    v.push(first);
    let mut rest = rest;
    v.append(&mut rest);
    proof {
        assert(v@ =~= seq![v@[0]] + r0);
        assert(nodes_view(v@) =~= seq![f0] + nodes_view(r0));
    }
    v
}

/// `a`, `b`, then `rest`, as one child list.
fn two_plus(a: ParseNode, b: ParseNode, rest: Vec<ParseNode>) -> (v: Vec<ParseNode>)
    ensures
        nodes_view(v@) == seq![a@, b@] + nodes_view(rest@),
{
    let ghost a0 = a@;
    let ghost b0 = b@;
    let ghost r0 = rest@;
    let mut v: Vec<ParseNode> = Vec::new();
    v.push(a);
    v.push(b);
    let mut rest = rest;
    v.append(&mut rest);
    proof {
        assert(v@ =~= seq![v@[0], v@[1]] + r0);
        assert(nodes_view(v@) =~= seq![a0, b0] + nodes_view(r0));
    }
    v
}

// ---------------------------------------------------------------------
// The executable recursive descent. Each function computes exactly its
// specification function.
// ---------------------------------------------------------------------

#[verifier::rlimit(80)]
fn level_op(s: &Vec<char>, pos: usize, lvl: u8) -> (r: Option<(ParseNode, usize)>)
    requires
        pos <= s@.len(),
    ensures
        pres_view(r) == spec_level_op(s@, pos as int, lvl),
        r matches Option::Some((n, p)) ==> pos < p <= s@.len(),
{
    let _slen: usize = s.len();
    let w = skip_ws(s, pos);
    let oplen: usize = if lvl == 0 {
        if word_or(s, w) {
            2
        } else {
            0
        }
    } else if lvl == 1 {
        if word_and(s, w) {
            3
        } else {
            0
        }
    } else if lvl == 2 {
        if w < s.len() && w + 1 < s.len() && ((s[w] == '<' && s[w + 1] == '=') || (s[w] == '>'
            && s[w + 1] == '=') || (s[w] == '<' && s[w + 1] == '>')) {
            2
        } else if w < s.len() && (s[w] == '<' || s[w] == '>' || s[w] == '=') {
            1
        } else {
            0
        }
    } else if lvl == 3 {
        if w < s.len() && (s[w] == '+' || s[w] == '-') {
            1
        } else {
            0
        }
    } else {
        if w < s.len() && (s[w] == '*' || s[w] == '/') {
            1
        } else {
            0
        }
    };
    proof {
        if lvl == 0 {
            assert(oplen == 0 <==> !word_at(s@, w as int, kw_or()));
        } else if lvl == 1 {
            assert(oplen == 0 <==> !word_at(s@, w as int, kw_and()));
        } else if lvl == 2 {
            assert(seq!['<'].len() == 1 && seq!['<'][0] == '<');
            assert(seq!['>'].len() == 1 && seq!['>'][0] == '>');
            assert(seq!['='].len() == 1 && seq!['='][0] == '=');
            assert(seq!['<', '='].len() == 2 && seq!['<', '='][0] == '<' && seq!['<', '='][1]
                == '=');
            assert(seq!['>', '='].len() == 2 && seq!['>', '='][0] == '>' && seq!['>', '='][1]
                == '=');
            assert(seq!['<', '>'].len() == 2 && seq!['<', '>'][0] == '<' && seq!['<', '>'][1]
                == '>');
            assert(oplen == 2 <==> (matches_at(s@, w as int, seq!['<', '=']) || matches_at(
                s@,
                w as int,
                seq!['>', '='],
            ) || matches_at(s@, w as int, seq!['<', '>'])));
            assert(oplen == 1 <==> !(matches_at(s@, w as int, seq!['<', '=']) || matches_at(
                s@,
                w as int,
                seq!['>', '='],
            ) || matches_at(s@, w as int, seq!['<', '>'])) && (matches_at(s@, w as int, seq!['<'])
                || matches_at(s@, w as int, seq!['>']) || matches_at(s@, w as int, seq!['='])));
        } else if lvl == 3 {
            assert(seq!['+'].len() == 1 && seq!['+'][0] == '+');
            assert(seq!['-'].len() == 1 && seq!['-'][0] == '-');
            assert(oplen == 0 <==> !(matches_at(s@, w as int, seq!['+']) || matches_at(
                s@,
                w as int,
                seq!['-'],
            )));
        } else {
            assert(seq!['*'].len() == 1 && seq!['*'][0] == '*');
            assert(seq!['/'].len() == 1 && seq!['/'][0] == '/');
            assert(oplen == 0 <==> !(matches_at(s@, w as int, seq!['*']) || matches_at(
                s@,
                w as int,
                seq!['/'],
            )));
        }
    }
    if oplen == 0 {
        None
    } else {
        Some((mk_leaf(Rule::OpToken, w, w + oplen), w + oplen))
    }
}

#[verifier::rlimit(80)]
fn parse_level(s: &Vec<char>, pos: usize, lvl: u8) -> (r: Option<(ParseNode, usize)>)
    requires
        pos <= s@.len(),
    ensures
        pres_view(r) == spec_parse_level(s@, pos as int, lvl),
        r matches Option::Some((n, p)) ==> pos < p <= s@.len(),
    decreases rem_len(s@, pos as int), level_rank(lvl),
{
    let _slen: usize = s.len();
    match parse_operand(s, pos, lvl) {
        None => None,
        Some((first, p1)) => {
            let (pairs, p2) = parse_tail(s, p1, lvl);
            if pairs.len() == 0 {
                Some((first, p1))
            } else {
                let st = first.start;
                let ghost f0 = first@;
                let ghost pr0 = pairs@;
                let ch = one_plus(first, pairs);
                let n = ParseNode { rule: Rule::BinaryChain, start: st, end: p2, children: ch };
                proof {
                    assert(node_view(n) == (SNode {
                        rule: Rule::BinaryChain,
                        start: f0.start,
                        end: p2 as int,
                        children: seq![f0] + nodes_view(pr0),
                    }));
                }
                Some((n, p2))
            }
        },
    }
}

#[verifier::rlimit(80)]
fn parse_tail(s: &Vec<char>, pos: usize, lvl: u8) -> (r: (Vec<ParseNode>, usize))
    requires
        pos <= s@.len(),
    ensures
        spec_parse_tail(s@, pos as int, lvl) == (nodes_view(r.0@), r.1 as int),
        pos <= r.1 <= s@.len(),
    decreases rem_len(s@, pos as int), tail_rank(lvl),
{
    let _slen: usize = s.len();
    let empty_r: (Vec<ParseNode>, usize) = (Vec::new(), pos);
    proof {
        assert(nodes_view(empty_r.0@) =~= Seq::<SNode>::empty());
    }
    match level_op(s, pos, lvl) {
        None => empty_r,
        Some((opn, po)) => {
            match parse_operand(s, po, lvl) {
                None => empty_r,
                Some((n, p2)) => {
                    if p2 > po {
                        let ghost o0 = opn@;
                        let ghost n0 = n@;
                        let (rest, pe) = parse_tail(s, p2, lvl);
                        let ghost r0 = rest@;
                        let v = two_plus(opn, n, rest);
                        proof {
                            assert(nodes_view(v@) == seq![o0, n0] + nodes_view(r0));
                        }
                        (v, pe)
                    } else {
                        empty_r
                    }
                },
            }
        },
    }
}

fn parse_operand(s: &Vec<char>, pos: usize, lvl: u8) -> (r: Option<(ParseNode, usize)>)
    requires
        pos <= s@.len(),
    ensures
        pres_view(r) == spec_parse_operand(s@, pos as int, lvl),
        r matches Option::Some((n, p)) ==> pos < p <= s@.len(),
    decreases rem_len(s@, pos as int), operand_rank(lvl),
{
    let _slen: usize = s.len();
    if lvl == 0 {
        parse_level(s, pos, 1)
    } else if lvl == 1 {
        parse_not(s, pos)
    } else if lvl == 2 {
        parse_level(s, pos, 3)
    } else if lvl == 3 {
        parse_level(s, pos, 4)
    } else {
        parse_primary(s, pos)
    }
}

fn parse_not(s: &Vec<char>, pos: usize) -> (r: Option<(ParseNode, usize)>)
    requires
        pos <= s@.len(),
    ensures
        pres_view(r) == spec_parse_not(s@, pos as int),
        r matches Option::Some((n, p)) ==> pos < p <= s@.len(),
    decreases rem_len(s@, pos as int), 79nat,
{
    let _slen: usize = s.len();
    let w = skip_ws(s, pos);
    if word_not(s, w) {
        match parse_level(s, w + 3, 2) {
            Some((n, p)) => {
                let nn = mk_node1(Rule::NotExpr, w, p, n);
                Some((nn, p))
            },
            None => parse_level(s, pos, 2),
        }
    } else {
        parse_level(s, pos, 2)
    }
}

} // verus!

verus! {

#[verifier::rlimit(80)]
fn parse_primary(s: &Vec<char>, pos: usize) -> (r: Option<(ParseNode, usize)>)
    requires
        pos <= s@.len(),
    ensures
        pres_view(r) == spec_parse_primary(s@, pos as int),
        r matches Option::Some((n, p)) ==> pos < p <= s@.len(),
    decreases rem_len(s@, pos as int), 60nat,
{
    let _slen: usize = s.len();
    let w = skip_ws(s, pos);
    let core: Option<(ParseNode, usize)> = if word_if(s, w) && parse_if_probe(s, w) {
        parse_if(s, w)
    } else if word_case_u(s, w) && parse_case_probe(s, w) {
        parse_case(s, w)
    } else if word_true(s, w) {
        Some((mk_leaf(Rule::BoolTok, w, w + 4), w + 4))
    } else if word_false(s, w) {
        Some((mk_leaf(Rule::BoolTok, w, w + 5), w + 5))
    } else if parse_func_probe(s, w) {
        parse_func_call(s, w)
    } else if parse_field_probe(s, w) {
        parse_field_ref(s, w)
    } else if number_probe(s, w) {
        match number_end(s, w) {
            Some(e) => Some((mk_leaf(Rule::NumberTok, w, e), e)),
            None => None,
        }
    } else if string_probe(s, w) {
        match string_end(s, w) {
            Some(e) => Some((mk_leaf(Rule::StringTok, w, e), e)),
            None => None,
        }
    } else if w < s.len() && s[w] == '(' {
        match parse_level(s, w + 1, 0) {
            Some((n, p)) => {
                let c = skip_ws(s, p);
                if c < s.len() && s[c] == ')' {
                    Some((n, c + 1))
                } else {
                    None
                }
            },
            None => None,
        }
    } else {
        None
    };
    match core {
        Some((n, p)) => {
            if p > pos {
                let (nn, pp) = with_modifiers(s, p, n);
                Some((nn, pp))
            } else {
                None
            }
        },
        None => None,
    }
}

/// Whether an `if` expression parses at `pos` (the parse is then
/// repeated for its result; recognition is cheap).
fn parse_if_probe(s: &Vec<char>, pos: usize) -> (r: bool)
    requires
        pos <= s@.len(),
    ensures
        r == (spec_parse_if(s@, pos as int) is Some),
    decreases rem_len(s@, pos as int), 59nat,
{
    match parse_if(s, pos) {
        Some(_) => true,
        None => false,
    }
}

fn parse_case_probe(s: &Vec<char>, pos: usize) -> (r: bool)
    requires
        pos <= s@.len(),
    ensures
        r == (spec_parse_case(s@, pos as int) is Some),
    decreases rem_len(s@, pos as int), 57nat,
{
    match parse_case(s, pos) {
        Some(_) => true,
        None => false,
    }
}

fn parse_func_probe(s: &Vec<char>, pos: usize) -> (r: bool)
    requires
        pos <= s@.len(),
    ensures
        r == (spec_parse_func_call(s@, pos as int) is Some),
    decreases rem_len(s@, pos as int), 55nat,
{
    match parse_func_call(s, pos) {
        Some(_) => true,
        None => false,
    }
}

fn parse_field_probe(s: &Vec<char>, pos: usize) -> (r: bool)
    requires
        pos <= s@.len(),
    ensures
        r == (spec_field_ref(s@, pos as int) is Some),
{
    match ident_end(s, pos) {
        Some(_) => true,
        None => false,
    }
}

fn number_probe(s: &Vec<char>, pos: usize) -> (r: bool)
    requires
        pos <= s@.len(),
    ensures
        r == (spec_number_end(s@, pos as int) is Some),
{
    match number_end(s, pos) {
        Some(_) => true,
        None => false,
    }
}

fn string_probe(s: &Vec<char>, pos: usize) -> (r: bool)
    requires
        pos <= s@.len(),
    ensures
        r == (spec_string_end(s@, pos as int) is Some),
{
    match string_end(s, pos) {
        Some(_) => true,
        None => false,
    }
}

fn parse_if(s: &Vec<char>, pos: usize) -> (r: Option<(ParseNode, usize)>)
    requires
        pos <= s@.len(),
    ensures
        pres_view(r) == spec_parse_if(s@, pos as int),
        r matches Option::Some((n, p)) ==> pos < p <= s@.len(),
    decreases rem_len(s@, pos as int), 58nat,
{
    let _slen: usize = s.len();
    if word_if(s, pos) {
        match if_call_form(s, pos) {
            Some(r) => Some(r),
            None => if_then_form(s, pos),
        }
    } else {
        None
    }
}

#[verifier::rlimit(80)]
fn if_call_form(s: &Vec<char>, pos: usize) -> (r: Option<(ParseNode, usize)>)
    requires
        pos <= s@.len(),
        word_at(s@, pos as int, kw_if()),
    ensures
        pres_view(r) == spec_if_call_form(s@, pos as int),
        r matches Option::Some((n, p)) ==> pos < p <= s@.len(),
    decreases rem_len(s@, pos as int), 57nat,
{
    let _slen: usize = s.len();
    let w = skip_ws(s, pos + 2);
    if w < s.len() && s[w] == '(' {
        match parse_level(s, w + 1, 0) {
            Some((c, p1)) => {
                let q1 = skip_ws(s, p1);
                if q1 < s.len() && s[q1] == ',' {
                    match parse_level(s, q1 + 1, 0) {
                        Some((t, p2)) => {
                            let q2 = skip_ws(s, p2);
                            if q2 < s.len() && s[q2] == ',' {
                                match parse_level(s, q2 + 1, 0) {
                                    Some((e, p3)) => {
                                        let q3 = skip_ws(s, p3);
                                        if q3 < s.len() && s[q3] == ')' {
                                            Some(
                                                (mk_node3(
                                                    Rule::IfNode,
                                                    pos,
                                                    q3 + 1,
                                                    c,
                                                    t,
                                                    e,
                                                ), q3 + 1),
                                            )
                                        } else {
                                            None
                                        }
                                    },
                                    None => None,
                                }
                            } else {
                                None
                            }
                        },
                        None => None,
                    }
                } else {
                    None
                }
            },
            None => None,
        }
    } else {
        None
    }
}

#[verifier::rlimit(80)]
fn if_then_form(s: &Vec<char>, pos: usize) -> (r: Option<(ParseNode, usize)>)
    requires
        pos <= s@.len(),
        word_at(s@, pos as int, kw_if()),
    ensures
        pres_view(r) == spec_if_then_form(s@, pos as int),
        r matches Option::Some((n, p)) ==> pos < p <= s@.len(),
    decreases rem_len(s@, pos as int), 55nat,
{
    let _slen: usize = s.len();
    match parse_level(s, pos + 2, 0) {
        Some((c, p1)) => {
            let w1 = skip_ws(s, p1);
            if word_then(s, w1) {
                match parse_level(s, w1 + 4, 0) {
                    Some((t, p2)) => {
                        let w2 = skip_ws(s, p2);
                        if word_else(s, w2) {
                            match parse_level(s, w2 + 4, 0) {
                                Some((e, p3)) => Some(
                                    (mk_node3(Rule::IfNode, pos, p3, c, t, e), p3),
                                ),
                                None => None,
                            }
                        } else {
                            None
                        }
                    },
                    None => None,
                }
            } else {
                None
            }
        },
        None => None,
    }
}

#[verifier::rlimit(80)]
fn parse_case(s: &Vec<char>, pos: usize) -> (r: Option<(ParseNode, usize)>)
    requires
        pos <= s@.len(),
    ensures
        pres_view(r) == spec_parse_case(s@, pos as int),
        r matches Option::Some((n, p)) ==> pos < p <= s@.len(),
    decreases rem_len(s@, pos as int), 56nat,
{
    let _slen: usize = s.len();
    if word_case_u(s, pos) {
        let (branches, p) = case_branches(s, pos + 4);
        if branches.len() >= 1 {
            let we = skip_ws(s, p);
            if word_else_u(s, we) {
                match parse_level(s, we + 4, 0) {
                    Some((e, p2)) => {
                        let wn = skip_ws(s, p2);
                        if word_end_u(s, wn) {
                            let ghost b0 = branches@;
                            let ghost e0 = e@;
                            let mut ch = branches;
                            ch.push(e);
                            let n = ParseNode {
                                rule: Rule::CaseNode,
                                start: pos,
                                end: wn + 3,
                                children: ch,
                            };
                            proof {
                                assert(nodes_view(n.children@) =~= nodes_view(b0) + seq![e0]);
                            }
                            Some((n, wn + 3))
                        } else {
                            None
                        }
                    },
                    None => None,
                }
            } else {
                None
            }
        } else {
            None
        }
    } else {
        None
    }
}

fn case_branches(s: &Vec<char>, pos: usize) -> (r: (Vec<ParseNode>, usize))
    requires
        pos <= s@.len(),
    ensures
        spec_case_branches(s@, pos as int) == (nodes_view(r.0@), r.1 as int),
        pos <= r.1 <= s@.len(),
    decreases rem_len(s@, pos as int), 111nat,
{
    let _slen: usize = s.len();
    let empty_r: (Vec<ParseNode>, usize) = (Vec::new(), pos);
    proof {
        assert(nodes_view(empty_r.0@) =~= Seq::<SNode>::empty());
    }
    let w = skip_ws(s, pos);
    if word_when_u(s, w) {
        match parse_level(s, w + 4, 0) {
            Some((c, p1)) => {
                let wt = skip_ws(s, p1);
                if word_then_u(s, wt) {
                    match parse_level(s, wt + 4, 0) {
                        Some((rr, p2)) => {
                            let branch = mk_node2(Rule::CaseWhen, w, p2, c, rr);
                            let ghost br0 = branch@;
                            let (rest, pe) = case_branches(s, p2);
                            let v = one_plus(branch, rest);
                            (v, pe)
                        },
                        None => empty_r,
                    }
                } else {
                    empty_r
                }
            },
            None => empty_r,
        }
    } else {
        empty_r
    }
}

#[verifier::rlimit(80)]
fn parse_func_call(s: &Vec<char>, pos: usize) -> (r: Option<(ParseNode, usize)>)
    requires
        pos <= s@.len(),
    ensures
        pres_view(r) == spec_parse_func_call(s@, pos as int),
        r matches Option::Some((n, p)) ==> pos < p <= s@.len(),
    decreases rem_len(s@, pos as int), 54nat,
{
    let _slen: usize = s.len();
    match ident_end(s, pos) {
        Some(e0) => {
            let w = skip_ws(s, e0);
            if w < s.len() && s[w] == '(' {
                match parse_args(s, w + 1) {
                    Some((args, p)) => {
                        let c = skip_ws(s, p);
                        if c < s.len() && s[c] == ')' {
                            let name = mk_leaf(Rule::Ident, pos, e0);
                            let ch = one_plus(name, args);
                            let n = ParseNode {
                                rule: Rule::FuncCall,
                                start: pos,
                                end: c + 1,
                                children: ch,
                            };
                            Some((n, c + 1))
                        } else {
                            None
                        }
                    },
                    None => None,
                }
            } else {
                None
            }
        },
        None => None,
    }
}

fn parse_args(s: &Vec<char>, pos: usize) -> (r: Option<(Vec<ParseNode>, usize)>)
    requires
        pos <= s@.len(),
    ensures
        match r {
            Option::Some((v, p)) => spec_parse_args(s@, pos as int) == Option::Some(
                (nodes_view(v@), p as int),
            ) && pos <= p <= s@.len(),
            Option::None => spec_parse_args(s@, pos as int) is None,
        },
    decreases rem_len(s@, pos as int), 110nat,
{
    let _slen: usize = s.len();
    match parse_level(s, pos, 0) {
        None => {
            let v: Vec<ParseNode> = Vec::new();
            proof {
                assert(nodes_view(v@) =~= Seq::<SNode>::empty());
            }
            Some((v, pos))
        },
        Some((n, p1)) => {
            let (rest, pe) = args_tail(s, p1);
            let v = one_plus(n, rest);
            Some((v, pe))
        },
    }
}

fn args_tail(s: &Vec<char>, pos: usize) -> (r: (Vec<ParseNode>, usize))
    requires
        pos <= s@.len(),
    ensures
        spec_args_tail(s@, pos as int) == (nodes_view(r.0@), r.1 as int),
        pos <= r.1 <= s@.len(),
    decreases rem_len(s@, pos as int), 109nat,
{
    let _slen: usize = s.len();
    let empty_r: (Vec<ParseNode>, usize) = (Vec::new(), pos);
    proof {
        assert(nodes_view(empty_r.0@) =~= Seq::<SNode>::empty());
    }
    let w = skip_ws(s, pos);
    if w < s.len() && s[w] == ',' {
        match parse_level(s, w + 1, 0) {
            Some((n, p)) => {
                let (rest, pe) = args_tail(s, p);
                let v = one_plus(n, rest);
                (v, pe)
            },
            None => empty_r,
        }
    } else {
        empty_r
    }
}

} // verus!

verus! {

#[verifier::rlimit(100)]
#[verifier::spinoff_prover]
fn with_modifiers(s: &Vec<char>, pos: usize, core: ParseNode) -> (r: (ParseNode, usize))
    requires
        pos <= s@.len(),
    ensures
        spec_with_modifiers(s@, pos as int, core@) == (node_view(r.0), r.1 as int),
        pos <= r.1 <= s@.len(),
    decreases rem_len(s@, pos as int), 50nat,
{
    let _slen: usize = s.len();
    let ghost core0 = core@;
    let is_func = match core.rule {
        Rule::FuncCall => true,
        _ => false,
    };
    let gr: Option<(ParseNode, usize)> = if is_func {
        parse_group(s, pos)
    } else {
        None
    };
    let (gkept, p1): (Option<ParseNode>, usize) = match gr {
        Some((g, pg)) => (Some(g), pg),
        None => (None, pos),
    };
    let wr: Option<(ParseNode, usize)> = parse_where(s, p1);
    let (wkept, p2): (Option<ParseNode>, usize) = match wr {
        Some((wn, pw)) => (Some(wn), pw),
        None => (None, p1),
    };
    match (gkept, wkept) {
        (None, None) => (core, pos),
        (g_opt, w_opt) => {
            let st = core.start;
            let ghost g0 = g_opt;
            let ghost w0 = w_opt;
            let mut ch: Vec<ParseNode> = Vec::new();
            ch.push(core);
            match g_opt {
                Some(g) => ch.push(g),
                None => (),
            }
            match w_opt {
                Some(wn) => ch.push(wn),
                None => (),
            }
            let n = ParseNode { rule: Rule::Modified, start: st, end: p2, children: ch };
            proof {
                let gseq: Seq<SNode> = match g0 {
                    Option::Some(g) => seq![g@],
                    Option::None => Seq::empty(),
                };
                let wseq: Seq<SNode> = match w0 {
                    Option::Some(wn) => seq![wn@],
                    Option::None => Seq::empty(),
                };
                assert(nodes_view(n.children@) =~= seq![core0] + gseq + wseq);
                assert(seq![core0] + gseq + wseq =~= seq![core0] + (gseq + wseq));
            }
            (n, p2)
        },
    }
}

#[verifier::rlimit(80)]
fn parse_where(s: &Vec<char>, pos: usize) -> (r: Option<(ParseNode, usize)>)
    requires
        pos <= s@.len(),
    ensures
        pres_view(r) == spec_parse_where(s@, pos as int),
        r matches Option::Some((n, p)) ==> pos < p <= s@.len(),
    decreases rem_len(s@, pos as int), 46nat,
{
    let _slen: usize = s.len();
    let w = skip_ws(s, pos);
    if w < s.len() && s[w] == '[' {
        let w2 = skip_ws(s, w + 1);
        if word_where(s, w2) {
            match where_first(s, w2 + 5) {
                Some((first, p1)) => {
                    let (filters, p2) = filters_tail(s, p1);
                    let c = skip_ws(s, p2);
                    if c < s.len() && s[c] == ']' {
                        let ch = one_plus(first, filters);
                        let n = ParseNode {
                            rule: Rule::WhereNode,
                            start: w,
                            end: c + 1,
                            children: ch,
                        };
                        Some((n, c + 1))
                    } else {
                        None
                    }
                },
                None => None,
            }
        } else {
            None
        }
    } else {
        None
    }
}

fn where_first(s: &Vec<char>, pos: usize) -> (r: Option<(ParseNode, usize)>)
    requires
        pos <= s@.len(),
    ensures
        pres_view(r) == spec_where_first(s@, pos as int),
        r matches Option::Some((n, p)) ==> pos < p <= s@.len(),
    decreases rem_len(s@, pos as int), 112nat,
{
    let _slen: usize = s.len();
    match allow_form(s, pos) {
        Some(r) => Some(r),
        None => match ignore_form(s, pos) {
            Some(r) => Some(r),
            None => parse_level(s, pos, 0),
        },
    }
}

#[verifier::rlimit(80)]
fn allow_form(s: &Vec<char>, pos: usize) -> (r: Option<(ParseNode, usize)>)
    requires
        pos <= s@.len(),
    ensures
        pres_view(r) == spec_allow_form(s@, pos as int),
        r matches Option::Some((n, p)) ==> pos < p <= s@.len(),
    decreases rem_len(s@, pos as int), 104nat,
{
    let _slen: usize = s.len();
    let w = skip_ws(s, pos);
    if word_allow(s, w) {
        let w2 = skip_ws(s, w + 5);
        if word_filters(s, w2) {
            let w3 = skip_ws(s, w2 + 7);
            if word_on(s, w3) {
                let fp = skip_ws(s, w3 + 2);
                match parse_field_ref(s, fp) {
                    Some((n, e)) => {
                        let (more, pe) = ident_list_tail(s, e);
                        let ch = one_plus(n, more);
                        let node = ParseNode {
                            rule: Rule::AllowFilters,
                            start: w,
                            end: pe,
                            children: ch,
                        };
                        Some((node, pe))
                    },
                    None => None,
                }
            } else {
                None
            }
        } else {
            None
        }
    } else {
        None
    }
}

#[verifier::rlimit(80)]
fn ignore_form(s: &Vec<char>, pos: usize) -> (r: Option<(ParseNode, usize)>)
    requires
        pos <= s@.len(),
    ensures
        pres_view(r) == spec_ignore_form(s@, pos as int),
        r matches Option::Some((n, p)) ==> pos < p <= s@.len(),
    decreases rem_len(s@, pos as int), 103nat,
{
    let _slen: usize = s.len();
    let w = skip_ws(s, pos);
    if word_ignore(s, w) {
        let w2 = skip_ws(s, w + 6);
        if word_all(s, w2) {
            let w3 = skip_ws(s, w2 + 3);
            if word_filters(s, w3) {
                Some((mk_leaf(Rule::IgnoreAllFilters, w, w3 + 7), w3 + 7))
            } else {
                None
            }
        } else if word_filters(s, w2) {
            let w3 = skip_ws(s, w2 + 7);
            if word_on(s, w3) {
                let fp = skip_ws(s, w3 + 2);
                match parse_field_ref(s, fp) {
                    Some((n, e)) => {
                        let (more, pe) = ident_list_tail(s, e);
                        let ch = one_plus(n, more);
                        let node = ParseNode {
                            rule: Rule::IgnoreFilters,
                            start: w,
                            end: pe,
                            children: ch,
                        };
                        Some((node, pe))
                    },
                    None => None,
                }
            } else {
                None
            }
        } else {
            None
        }
    } else {
        None
    }
}

fn ident_list_tail(s: &Vec<char>, pos: usize) -> (r: (Vec<ParseNode>, usize))
    requires
        pos <= s@.len(),
    ensures
        spec_ident_list_tail(s@, pos as int) == (nodes_view(r.0@), r.1 as int),
        pos <= r.1 <= s@.len(),
    decreases rem_len(s@, pos as int), 108nat,
{
    let _slen: usize = s.len();
    let empty_r: (Vec<ParseNode>, usize) = (Vec::new(), pos);
    proof {
        assert(nodes_view(empty_r.0@) =~= Seq::<SNode>::empty());
    }
    let w = skip_ws(s, pos);
    if w < s.len() && s[w] == ',' {
        let fp = skip_ws(s, w + 1);
        match parse_field_ref(s, fp) {
            Some((n, e)) => {
                let (rest, pe) = ident_list_tail(s, e);
                let v = one_plus(n, rest);
                (v, pe)
            },
            None => empty_r,
        }
    } else {
        empty_r
    }
}

fn filters_tail(s: &Vec<char>, pos: usize) -> (r: (Vec<ParseNode>, usize))
    requires
        pos <= s@.len(),
    ensures
        spec_filters_tail(s@, pos as int) == (nodes_view(r.0@), r.1 as int),
        pos <= r.1 <= s@.len(),
    decreases rem_len(s@, pos as int), 107nat,
{
    let _slen: usize = s.len();
    let empty_r: (Vec<ParseNode>, usize) = (Vec::new(), pos);
    proof {
        assert(nodes_view(empty_r.0@) =~= Seq::<SNode>::empty());
    }
    let w = skip_ws(s, pos);
    if word_and(s, w) {
        match parse_level(s, w + 3, 0) {
            Some((n, p)) => {
                let (rest, pe) = filters_tail(s, p);
                let v = one_plus(n, rest);
                (v, pe)
            },
            None => empty_r,
        }
    } else {
        empty_r
    }
}

#[verifier::rlimit(80)]
fn parse_group(s: &Vec<char>, pos: usize) -> (r: Option<(ParseNode, usize)>)
    requires
        pos <= s@.len(),
    ensures
        pres_view(r) == spec_parse_group(s@, pos as int),
        r matches Option::Some((n, p)) ==> pos < p <= s@.len(),
    decreases rem_len(s@, pos as int), 48nat,
{
    let _slen: usize = s.len();
    let w = skip_ws(s, pos);
    if w < s.len() && s[w] == '[' {
        let w2 = skip_ws(s, w + 1);
        if word_group(s, w2) {
            let w3 = skip_ws(s, w2 + 5);
            if word_by(s, w3) {
                let wa = skip_ws(s, w3 + 2);
                if word_all(s, wa) && word_groups(s, skip_ws(s, wa + 3)) {
                    let wb = skip_ws(s, wa + 3);
                    let c = skip_ws(s, wb + 6);
                    if c < s.len() && s[c] == ']' {
                        let tok = mk_leaf(Rule::AllGroupsTok, wa, wb + 6);
                        let n = mk_node1(Rule::GroupNode, w, c + 1, tok);
                        Some((n, c + 1))
                    } else {
                        None
                    }
                } else {
                    match group_ref(s, w3 + 2) {
                        Some((r1, p1)) => {
                            let (more, p2) = group_refs_tail(s, p1);
                            let c = skip_ws(s, p2);
                            if c < s.len() && s[c] == ']' {
                                let ch = one_plus(r1, more);
                                let n = ParseNode {
                                    rule: Rule::GroupNode,
                                    start: w,
                                    end: c + 1,
                                    children: ch,
                                };
                                Some((n, c + 1))
                            } else {
                                None
                            }
                        },
                        None => None,
                    }
                }
            } else {
                None
            }
        } else {
            None
        }
    } else {
        None
    }
}

#[verifier::rlimit(80)]
fn group_ref(s: &Vec<char>, pos: usize) -> (r: Option<(ParseNode, usize)>)
    requires
        pos <= s@.len(),
    ensures
        pres_view(r) == spec_group_ref(s@, pos as int),
        r matches Option::Some((n, p)) ==> pos < p <= s@.len(),
    decreases rem_len(s@, pos as int), 106nat,
{
    let _slen: usize = s.len();
    let w = skip_ws(s, pos);
    let query: Option<(ParseNode, usize)> = if word_group(s, w) {
        let wq = skip_ws(s, w + 5);
        if wq < s.len() && s[wq] == '(' {
            let wn = skip_ws(s, wq + 1);
            let d = digit_len(s, wn);
            if d >= 1 {
                let ce = skip_ws(s, wn + d);
                if ce < s.len() && s[ce] == ')' {
                    let tok = mk_leaf(Rule::NumberTok, wn, wn + d);
                    Some((mk_node1(Rule::QueryGroupRef, w, ce + 1, tok), ce + 1))
                } else {
                    None
                }
            } else {
                None
            }
        } else {
            None
        }
    } else {
        None
    };
    match query {
        Some(r) => Some(r),
        None => parse_level(s, pos, 0),
    }
}

fn group_refs_tail(s: &Vec<char>, pos: usize) -> (r: (Vec<ParseNode>, usize))
    requires
        pos <= s@.len(),
    ensures
        spec_group_refs_tail(s@, pos as int) == (nodes_view(r.0@), r.1 as int),
        pos <= r.1 <= s@.len(),
    decreases rem_len(s@, pos as int), 105nat,
{
    let _slen: usize = s.len();
    let empty_r: (Vec<ParseNode>, usize) = (Vec::new(), pos);
    proof {
        assert(nodes_view(empty_r.0@) =~= Seq::<SNode>::empty());
    }
    let w = skip_ws(s, pos);
    if w < s.len() && s[w] == ',' {
        match group_ref(s, w + 1) {
            Some((n, p)) => {
                let (rest, pe) = group_refs_tail(s, p);
                let v = one_plus(n, rest);
                (v, pe)
            },
            None => empty_r,
        }
    } else {
        empty_r
    }
}

/// A syntax error: the character position of the offending token.
#[derive(Debug, Clone, Copy, PartialEq, Eq, Structural)]
pub struct ParseError {
    pub position: usize,
}

/// The position a syntax error reports: where an expression was
/// recognized but trailing text begins, the first character of that
/// text; where no expression could be recognized at all, the first
/// character after leading whitespace.
pub open spec fn spec_error_position(s: Seq<char>) -> int
    decreases rem_len(s, 0), 121nat,
{
    match spec_parse_level(s, 0, 0) {
        Option::Some((n, p)) => p + spec_ws_len(s, p),
        Option::None => spec_ws_len(s, 0) as int,
    }
}

/// Recognizes one whole formula: the parse tree of the expression, or
/// the position of the offending token where the text does not match
/// the grammar.
pub fn parse_input(s: &Vec<char>) -> (r: Result<ParseNode, ParseError>)
    ensures
        match r {
            Result::Ok(n) => spec_parse_input(s@) == Option::Some(n@),
            Result::Err(e) => spec_parse_input(s@) is None && e.position as int
                == spec_error_position(s@),
        },
    decreases rem_len(s@, 0), 120nat,
{
    let _slen: usize = s.len();
    match parse_level(s, 0, 0) {
        Some((n, p)) => {
            let e = skip_ws(s, p);
            if e == s.len() {
                Ok(n)
            } else {
                Err(ParseError { position: e })
            }
        },
        None => {
            let e = skip_ws(s, 0);
            Err(ParseError { position: e })
        },
    }
}

} // verus!
