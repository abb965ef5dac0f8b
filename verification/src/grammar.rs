//! The grammar seen declaratively: which expression trees the precedence
//! levels admit, which token sequences spell a given tree, and the
//! completeness laws: on a token sequence that spells a well-formed
//! expression the parser yields exactly that expression and no errors, and
//! on source text that scans without errors into such a sequence the whole
//! scan-then-parse pipeline yields exactly one expression and no errors.

use vstd::prelude::*;

use crate::expression::ExprModel;
use crate::parse_model::{
    sp_comparison, sp_comparison_loop, sp_equality, sp_equality_loop, sp_expression, sp_factor,
    sp_factor_loop, sp_parse, sp_primary, sp_term, sp_term_loop, sp_unary, tok_at,
    ParseErrorModel,
};
use crate::scan_model::{sp_scan, ScanErrorModel};
use crate::token::{TokenModel, TokenType};

verus! {

pub open spec fn is_equality_op(k: TokenType) -> bool {
    k == TokenType::BangEqual || k == TokenType::EqualEqual
}

pub open spec fn is_comparison_op(k: TokenType) -> bool {
    k == TokenType::Greater || k == TokenType::GreaterEqual || k == TokenType::Less || k
        == TokenType::LessEqual
}

pub open spec fn is_term_op(k: TokenType) -> bool {
    k == TokenType::Minus || k == TokenType::Plus
}

pub open spec fn is_factor_op(k: TokenType) -> bool {
    k == TokenType::Slash || k == TokenType::Star
}

pub open spec fn is_unary_op(k: TokenType) -> bool {
    k == TokenType::Bang || k == TokenType::Minus
}

pub open spec fn is_literal_kind(k: TokenType) -> bool {
    k == TokenType::False || k == TokenType::True || k == TokenType::Nil || k == TokenType::Number
        || k == TokenType::String
}

/// Any binary operator of the grammar.
pub open spec fn is_binary_op(k: TokenType) -> bool {
    is_equality_op(k) || is_comparison_op(k) || is_term_op(k) || is_factor_op(k)
}

/// A well-formed primary: a literal, or a grouping of a well-formed
/// expression.
pub open spec fn wf_primary(e: ExprModel) -> bool
    decreases e, 0int,
{
    match e {
        ExprModel::Literal(_) => true,
        ExprModel::Grouping(inner) => wf_expression(*inner),
        _ => false,
    }
}

/// A well-formed unary level: `!` or `-` applied to a unary, or a primary.
pub open spec fn wf_unary(e: ExprModel) -> bool
    decreases e, 1int,
{
    match e {
        ExprModel::Unary { operator, right } => is_unary_op(operator.kind) && wf_unary(*right),
        _ => wf_primary(e),
    }
}

/// A well-formed factor level: a left-associative chain of `*` and `/` over
/// unaries.
pub open spec fn wf_factor(e: ExprModel) -> bool
    decreases e, 2int,
{
    match e {
        ExprModel::Binary { left, operator, right } => if is_factor_op(operator.kind) {
            wf_factor(*left) && wf_unary(*right)
        } else {
            false
        },
        _ => wf_unary(e),
    }
}

/// A well-formed term level: a left-associative chain of `+` and `-` over
/// factors.
pub open spec fn wf_term(e: ExprModel) -> bool
    decreases e, 3int,
{
    match e {
        ExprModel::Binary { left, operator, right } => if is_term_op(operator.kind) {
            wf_term(*left) && wf_factor(*right)
        } else {
            wf_factor(e)
        },
        _ => wf_factor(e),
    }
}

/// A well-formed comparison level.
pub open spec fn wf_comparison(e: ExprModel) -> bool
    decreases e, 4int,
{
    match e {
        ExprModel::Binary { left, operator, right } => if is_comparison_op(operator.kind) {
            wf_comparison(*left) && wf_term(*right)
        } else {
            wf_term(e)
        },
        _ => wf_term(e),
    }
}

/// A well-formed equality level.
pub open spec fn wf_equality(e: ExprModel) -> bool
    decreases e, 5int,
{
    match e {
        ExprModel::Binary { left, operator, right } => if is_equality_op(operator.kind) {
            wf_equality(*left) && wf_comparison(*right)
        } else {
            wf_comparison(e)
        },
        _ => wf_comparison(e),
    }
}

/// A well-formed expression of the grammar.
pub open spec fn wf_expression(e: ExprModel) -> bool
    decreases e, 6int,
{
    wf_equality(e)
}

/// How many tokens an expression tree spans: one per operator or literal,
/// two more for a grouping's parentheses.
pub open spec fn span_len(e: ExprModel) -> int
    decreases e,
{
    match e {
        ExprModel::Literal(_) => 1,
        ExprModel::Grouping(inner) => span_len(*inner) + 2,
        ExprModel::Unary { operator, right } => 1 + span_len(*right),
        ExprModel::Binary { left, operator, right } => span_len(*left) + 1 + span_len(*right),
    }
}

pub proof fn lemma_span_len_pos(e: ExprModel)
    ensures
        span_len(e) >= 1,
    decreases e,
{
    match e {
        ExprModel::Literal(_) => {},
        ExprModel::Grouping(inner) => {
            lemma_span_len_pos(*inner);
        },
        ExprModel::Unary { operator, right } => {
            lemma_span_len_pos(*right);
        },
        ExprModel::Binary { left, operator, right } => {
            lemma_span_len_pos(*left);
            lemma_span_len_pos(*right);
        },
    }
}

/// The tokens beginning at position `i` spell the expression `e`: its yield,
/// read left to right, with each operator and literal standing in its own
/// token; exactly `span_len(e)` tokens are covered.
pub open spec fn spells(toks: Seq<TokenModel>, i: int, e: ExprModel) -> bool
    decreases e,
{
    match e {
        ExprModel::Literal(lit) => 0 <= i && i < toks.len() && is_literal_kind(toks[i].kind)
            && toks[i].literal == Option::Some(lit),
        ExprModel::Grouping(inner) => 0 <= i && i + span_len(e) <= toks.len() && toks[i].kind
            == TokenType::LeftParen && toks[i + span_len(e) - 1].kind == TokenType::RightParen
            && spells(toks, i + 1, *inner),
        ExprModel::Unary { operator, right } => 0 <= i && i < toks.len() && toks[i] == operator
            && is_unary_op(operator.kind) && spells(toks, i + 1, *right),
        ExprModel::Binary { left, operator, right } => {
            let k = i + span_len(*left);
            0 <= i && k < toks.len() && spells(toks, i, *left) && toks[k] == operator
                && is_binary_op(operator.kind) && spells(toks, k + 1, *right)
        },
    }
}

/// A spelled expression lies within the tokens, and its first token is
/// never the end-of-input token.
pub proof fn lemma_spells_span(toks: Seq<TokenModel>, i: int, e: ExprModel)
    requires
        spells(toks, i, e),
    ensures
        0 <= i,
        i + span_len(e) <= toks.len(),
        span_len(e) >= 1,
        toks[i].kind != TokenType::Eof,
    decreases e,
{
    lemma_span_len_pos(e);
    match e {
        ExprModel::Literal(_) => {},
        ExprModel::Grouping(inner) => {},
        ExprModel::Unary { operator, right } => {
            lemma_spells_span(toks, i + 1, *right);
        },
        ExprModel::Binary { left, operator, right } => {
            lemma_spells_span(toks, i, *left);
            lemma_spells_span(toks, i + span_len(*left) + 1, *right);
        },
    }
}

/// Completeness at the primary level: on tokens that spell a well-formed
/// primary, the parser returns exactly it, consuming exactly its tokens and
/// recording no error.
pub proof fn lemma_primary_complete(toks: Seq<TokenModel>, i: int, e: ExprModel)
    requires
        wf_primary(e),
        spells(toks, i, e),
    ensures
        sp_primary(toks, i).expr == Option::Some(e),
        sp_primary(toks, i).next == i + span_len(e),
        sp_primary(toks, i).errs == Seq::<ParseErrorModel>::empty(),
    decreases e, 0int,
{
    match e {
        ExprModel::Literal(lit) => {
            assert(sp_primary(toks, i).errs =~= Seq::<ParseErrorModel>::empty());
        },
        ExprModel::Grouping(inner) => {
            lemma_spells_span(toks, i + 1, *inner);
            lemma_equality_complete(toks, i + 1, *inner);
            assert(tok_at(toks, i + 1 + span_len(*inner)).kind == TokenType::RightParen);
            assert(sp_primary(toks, i).errs =~= Seq::<ParseErrorModel>::empty());
        },
        _ => {},
    }
}

/// Completeness at the unary level.
pub proof fn lemma_unary_complete(toks: Seq<TokenModel>, i: int, e: ExprModel)
    requires
        wf_unary(e),
        spells(toks, i, e),
    ensures
        sp_unary(toks, i).expr == e,
        sp_unary(toks, i).next == i + span_len(e),
        sp_unary(toks, i).errs == Seq::<ParseErrorModel>::empty(),
    decreases e, 1int,
{
    match e {
        ExprModel::Unary { operator, right } => {
            lemma_unary_complete(toks, i + 1, *right);
        },
        _ => {
            lemma_primary_complete(toks, i, e);
        },
    }
}

/// Parsing a factor whose input begins with the yield of a well-formed
/// factor `l` reaches the fold state `(l, i + span_len(l))`, whatever
/// follows.
#[verifier::rlimit(100)]
pub proof fn lemma_factor_extend(toks: Seq<TokenModel>, i: int, l: ExprModel)
    requires
        wf_factor(l),
        spells(toks, i, l),
    ensures
        sp_factor(toks, i).expr == sp_factor_loop(l, toks, i + span_len(l)).expr,
        sp_factor(toks, i).next == sp_factor_loop(l, toks, i + span_len(l)).next,
        sp_factor(toks, i).errs == sp_factor_loop(l, toks, i + span_len(l)).errs,
    decreases l, 2int,
{
    lemma_spells_span(toks, i, l);
    match l {
        ExprModel::Binary { left, operator, right } => {
            let k = i + span_len(*left);
            lemma_spells_span(toks, i, *left);
            lemma_factor_extend(toks, i, *left);
            lemma_unary_complete(toks, k + 1, *right);
            lemma_spells_span(toks, k + 1, *right);
            let r = sp_unary(toks, k + 1);
            assert(r.expr == *right && r.next == i + span_len(l));
            assert((ExprModel::Binary {
                left: Box::new(*left),
                operator: tok_at(toks, k),
                right: Box::new(r.expr),
            }) == l);
            assert(sp_factor_loop(*left, toks, k).expr == sp_factor_loop(l, toks, i + span_len(l)).expr);
            assert(sp_factor_loop(*left, toks, k).next == sp_factor_loop(l, toks, i + span_len(l)).next);
            assert(sp_factor_loop(*left, toks, k).errs =~= sp_factor_loop(l, toks, i + span_len(l)).errs);
            assert(sp_factor(toks, i).errs =~= sp_factor_loop(l, toks, i + span_len(l)).errs);
        },
        _ => {
            lemma_unary_complete(toks, i, l);
            assert(sp_factor(toks, i).errs =~= sp_factor_loop(l, toks, i + span_len(l)).errs);
        },
    }
}

/// Completeness at the factor level: the fold stops exactly after the yield
/// when the next token is not a factor operator.
pub proof fn lemma_factor_complete(toks: Seq<TokenModel>, i: int, e: ExprModel)
    requires
        wf_factor(e),
        spells(toks, i, e),
        !is_factor_op(tok_at(toks, i + span_len(e)).kind),
    ensures
        sp_factor(toks, i).expr == e,
        sp_factor(toks, i).next == i + span_len(e),
        sp_factor(toks, i).errs == Seq::<ParseErrorModel>::empty(),
    decreases e, 3int,
{
    lemma_factor_extend(toks, i, e);
    assert(sp_factor_loop(e, toks, i + span_len(e)).errs =~= Seq::<ParseErrorModel>::empty());
}

#[verifier::rlimit(100)]
pub proof fn lemma_term_extend(toks: Seq<TokenModel>, i: int, l: ExprModel)
    requires
        wf_term(l),
        spells(toks, i, l),
        !is_factor_op(tok_at(toks, i + span_len(l)).kind),
    ensures
        sp_term(toks, i).expr == sp_term_loop(l, toks, i + span_len(l)).expr,
        sp_term(toks, i).next == sp_term_loop(l, toks, i + span_len(l)).next,
        sp_term(toks, i).errs == sp_term_loop(l, toks, i + span_len(l)).errs,
    decreases l, 4int,
{
    lemma_spells_span(toks, i, l);
    let follows_term_op = l matches ExprModel::Binary { left, operator, right } && is_term_op(
        operator.kind,
    );
    if follows_term_op {
        match l {
            ExprModel::Binary { left, operator, right } => {
                let k = i + span_len(*left);
                lemma_spells_span(toks, i, *left);
                lemma_term_extend(toks, i, *left);
                lemma_factor_complete(toks, k + 1, *right);
                lemma_spells_span(toks, k + 1, *right);
                let r = sp_factor(toks, k + 1);
                assert(r.expr == *right && r.next == i + span_len(l));
                assert((ExprModel::Binary {
                    left: Box::new(*left),
                    operator: tok_at(toks, k),
                    right: Box::new(r.expr),
                }) == l);
                assert(sp_term_loop(*left, toks, k).expr == sp_term_loop(l, toks, i + span_len(l)).expr);
            assert(sp_term_loop(*left, toks, k).next == sp_term_loop(l, toks, i + span_len(l)).next);
            assert(sp_term_loop(*left, toks, k).errs =~= sp_term_loop(l, toks, i + span_len(l)).errs);
                assert(sp_term(toks, i).errs =~= sp_term_loop(l, toks, i + span_len(l)).errs);
            },
            _ => {},
        }
    } else {
        lemma_factor_complete(toks, i, l);
        assert(sp_term(toks, i).errs =~= sp_term_loop(l, toks, i + span_len(l)).errs);
    }
}

pub proof fn lemma_term_complete(toks: Seq<TokenModel>, i: int, e: ExprModel)
    requires
        wf_term(e),
        spells(toks, i, e),
        !is_factor_op(tok_at(toks, i + span_len(e)).kind),
        !is_term_op(tok_at(toks, i + span_len(e)).kind),
    ensures
        sp_term(toks, i).expr == e,
        sp_term(toks, i).next == i + span_len(e),
        sp_term(toks, i).errs == Seq::<ParseErrorModel>::empty(),
    decreases e, 5int,
{
    lemma_term_extend(toks, i, e);
    assert(sp_term_loop(e, toks, i + span_len(e)).errs =~= Seq::<ParseErrorModel>::empty());
}

#[verifier::rlimit(100)]
pub proof fn lemma_comparison_extend(toks: Seq<TokenModel>, i: int, l: ExprModel)
    requires
        wf_comparison(l),
        spells(toks, i, l),
        !is_factor_op(tok_at(toks, i + span_len(l)).kind),
        !is_term_op(tok_at(toks, i + span_len(l)).kind),
    ensures
        sp_comparison(toks, i).expr == sp_comparison_loop(l, toks, i + span_len(l)).expr,
        sp_comparison(toks, i).next == sp_comparison_loop(l, toks, i + span_len(l)).next,
        sp_comparison(toks, i).errs == sp_comparison_loop(l, toks, i + span_len(l)).errs,
    decreases l, 6int,
{
    lemma_spells_span(toks, i, l);
    let heads_cmp = l matches ExprModel::Binary { left, operator, right } && is_comparison_op(
        operator.kind,
    );
    if heads_cmp {
        match l {
            ExprModel::Binary { left, operator, right } => {
                let k = i + span_len(*left);
                lemma_spells_span(toks, i, *left);
                lemma_comparison_extend(toks, i, *left);
                lemma_term_complete(toks, k + 1, *right);
                lemma_spells_span(toks, k + 1, *right);
                let r = sp_term(toks, k + 1);
                assert(r.expr == *right && r.next == i + span_len(l));
                assert((ExprModel::Binary {
                    left: Box::new(*left),
                    operator: tok_at(toks, k),
                    right: Box::new(r.expr),
                }) == l);
                assert(sp_comparison_loop(*left, toks, k).expr == sp_comparison_loop(l, toks, i + span_len(l)).expr);
                assert(sp_comparison_loop(*left, toks, k).next == sp_comparison_loop(l, toks, i + span_len(l)).next);
                assert(sp_comparison_loop(*left, toks, k).errs =~= sp_comparison_loop(l, toks, i + span_len(l)).errs);
                assert(sp_comparison(toks, i).errs =~= sp_comparison_loop(
                    l,
                    toks,
                    i + span_len(l),
                ).errs);
            },
            _ => {},
        }
    } else {
        lemma_term_complete(toks, i, l);
        assert(sp_comparison(toks, i).errs =~= sp_comparison_loop(l, toks, i + span_len(l)).errs);
    }
}

pub proof fn lemma_comparison_complete(toks: Seq<TokenModel>, i: int, e: ExprModel)
    requires
        wf_comparison(e),
        spells(toks, i, e),
        !is_factor_op(tok_at(toks, i + span_len(e)).kind),
        !is_term_op(tok_at(toks, i + span_len(e)).kind),
        !is_comparison_op(tok_at(toks, i + span_len(e)).kind),
    ensures
        sp_comparison(toks, i).expr == e,
        sp_comparison(toks, i).next == i + span_len(e),
        sp_comparison(toks, i).errs == Seq::<ParseErrorModel>::empty(),
    decreases e, 7int,
{
    lemma_comparison_extend(toks, i, e);
    assert(sp_comparison_loop(e, toks, i + span_len(e)).errs =~= Seq::<ParseErrorModel>::empty());
}

#[verifier::rlimit(100)]
pub proof fn lemma_equality_extend(toks: Seq<TokenModel>, i: int, l: ExprModel)
    requires
        wf_equality(l),
        spells(toks, i, l),
        !is_factor_op(tok_at(toks, i + span_len(l)).kind),
        !is_term_op(tok_at(toks, i + span_len(l)).kind),
        !is_comparison_op(tok_at(toks, i + span_len(l)).kind),
    ensures
        sp_equality(toks, i).expr == sp_equality_loop(l, toks, i + span_len(l)).expr,
        sp_equality(toks, i).next == sp_equality_loop(l, toks, i + span_len(l)).next,
        sp_equality(toks, i).errs == sp_equality_loop(l, toks, i + span_len(l)).errs,
    decreases l, 8int,
{
    lemma_spells_span(toks, i, l);
    let heads_eq = l matches ExprModel::Binary { left, operator, right } && is_equality_op(
        operator.kind,
    );
    if heads_eq {
        match l {
            ExprModel::Binary { left, operator, right } => {
                let k = i + span_len(*left);
                lemma_spells_span(toks, i, *left);
                lemma_equality_extend(toks, i, *left);
                lemma_comparison_complete(toks, k + 1, *right);
                lemma_spells_span(toks, k + 1, *right);
                let r = sp_comparison(toks, k + 1);
                assert(r.expr == *right && r.next == i + span_len(l));
                assert((ExprModel::Binary {
                    left: Box::new(*left),
                    operator: tok_at(toks, k),
                    right: Box::new(r.expr),
                }) == l);
                assert(sp_equality_loop(*left, toks, k).expr == sp_equality_loop(l, toks, i + span_len(l)).expr);
                assert(sp_equality_loop(*left, toks, k).next == sp_equality_loop(l, toks, i + span_len(l)).next);
                assert(sp_equality_loop(*left, toks, k).errs =~= sp_equality_loop(l, toks, i + span_len(l)).errs);
                assert(sp_equality(toks, i).errs =~= sp_equality_loop(
                    l,
                    toks,
                    i + span_len(l),
                ).errs);
            },
            _ => {},
        }
    } else {
        lemma_comparison_complete(toks, i, l);
        assert(sp_equality(toks, i).errs =~= sp_equality_loop(l, toks, i + span_len(l)).errs);
    }
}

/// Completeness at the equality level, and so for whole expressions: on
/// tokens that spell a well-formed expression, followed by a token that is
/// no binary operator, the parser returns exactly that expression, stops
/// exactly after it, and records no error.
pub proof fn lemma_equality_complete(toks: Seq<TokenModel>, i: int, e: ExprModel)
    requires
        wf_equality(e),
        spells(toks, i, e),
        !is_binary_op(tok_at(toks, i + span_len(e)).kind),
    ensures
        sp_equality(toks, i).expr == e,
        sp_equality(toks, i).next == i + span_len(e),
        sp_equality(toks, i).errs == Seq::<ParseErrorModel>::empty(),
    decreases e, 9int,
{
    lemma_equality_extend(toks, i, e);
    assert(sp_equality_loop(e, toks, i + span_len(e)).errs =~= Seq::<ParseErrorModel>::empty());
}

/// Completeness of the whole parse: a token sequence that spells one
/// well-formed expression and then ends in the end-of-input token parses to
/// exactly that expression, with no syntax errors, leaving the cursor on the
/// end-of-input token.
pub proof fn lemma_parse_complete(toks: Seq<TokenModel>, e: ExprModel)
    requires
        wf_expression(e),
        toks.len() >= 1,
        toks.last().kind == TokenType::Eof,
        spells(toks, 0, e),
        span_len(e) == toks.len() - 1,
    ensures
        sp_parse(toks, 0).exprs == seq![e],
        sp_parse(toks, 0).next == toks.len() - 1,
        sp_parse(toks, 0).errs == Seq::<ParseErrorModel>::empty(),
{
    let n = toks.len() as int;
    lemma_spells_span(toks, 0, e);
    assert(tok_at(toks, n - 1).kind == TokenType::Eof);
    lemma_equality_complete(toks, 0, e);
    assert(sp_expression(toks, 0).expr == e);
    assert(sp_parse(toks, n - 1).exprs =~= Seq::<ExprModel>::empty());
    assert(sp_parse(toks, 0).exprs =~= seq![e]);
    assert(sp_parse(toks, 0).errs =~= Seq::<ParseErrorModel>::empty());
}

/// The round trip: on source text whose scan reports no lexical error and
/// whose tokens spell one well-formed expression before the end-of-input
/// token, parsing the scanned tokens yields exactly that expression and no
/// syntax errors.
pub proof fn lemma_scan_parse_round_trip(src: Seq<char>, e: ExprModel)
    requires
        wf_expression(e),
        sp_scan(src, 0, 1, 1).errors == Seq::<ScanErrorModel>::empty(),
        spells(sp_scan(src, 0, 1, 1).tokens, 0, e),
        span_len(e) == sp_scan(src, 0, 1, 1).tokens.len() - 1,
    ensures
        sp_parse(sp_scan(src, 0, 1, 1).tokens, 0).exprs == seq![e],
        sp_parse(sp_scan(src, 0, 1, 1).tokens, 0).errs == Seq::<ParseErrorModel>::empty(),
{
    crate::scan_model::lemma_scan_ends_eof(src, 0, 1, 1);
    lemma_parse_complete(sp_scan(src, 0, 1, 1).tokens, e);
}

} // verus!
