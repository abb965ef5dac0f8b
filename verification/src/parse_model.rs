//! Mathematical model of the parser: one function per precedence level of
//! the expression grammar, a driver that parses top-level expressions until
//! end of input, and bounds lemmas showing the cursor only moves forward and
//! never passes the end-of-input token.
//!
//! Grammar, lowest to highest precedence, all binary operators
//! left-associative:
//! ```text
//! expression -> equality
//! equality   -> comparison ( ("!=" | "==") comparison )*
//! comparison -> term ( (">" | ">=" | "<" | "<=") term )*
//! term       -> factor ( ("-" | "+") factor )*
//! factor     -> unary ( ("/" | "*") unary )*
//! unary      -> ("!" | "-") unary | primary
//! primary    -> NUMBER | STRING | "true" | "false" | "nil" | "(" expression ")"
//! ```

use vstd::prelude::*;

use crate::expression::ExprModel;
use crate::scan_model::eof_model;
use crate::token::{token_wf, LiteralModel, TokenModel, TokenType};

verus! {

/// Ghost model of a syntax error record: a message and the offending token.
pub ghost struct ParseErrorModel {
    pub message: Seq<char>,
    pub token: TokenModel,
}

/// The message recorded when a parenthesized expression lacks its `)`.
pub open spec fn expect_paren_message() -> Seq<char> {
    "Expect ')' after expression."@
}

/// The token at position `i`, or the end-of-input token when `i` is out of
/// range; the parser never distinguishes the two cases.
pub open spec fn tok_at(toks: Seq<TokenModel>, i: int) -> TokenModel {
    if 0 <= i && i < toks.len() {
        toks[i]
    } else {
        eof_model(0, 0)
    }
}

/// Whether the cursor stands on the end-of-input token.
pub open spec fn at_eof(toks: Seq<TokenModel>, i: int) -> bool {
    tok_at(toks, i).kind == TokenType::Eof
}

/// A token sequence fit for parsing: nonempty, ending in the end-of-input
/// token, with every token well formed.
pub open spec fn wf_tokens(toks: Seq<TokenModel>) -> bool {
    &&& toks.len() >= 1
    &&& toks.last().kind == TokenType::Eof
    &&& forall|k: int| 0 <= k < toks.len() ==> token_wf(#[trigger] toks[k])
}

/// What parsing one grammar level yields: the expression, the position where
/// parsing resumed, and the syntax errors recorded on the way.
pub ghost struct PRes {
    pub expr: ExprModel,
    pub next: int,
    pub errs: Seq<ParseErrorModel>,
}

/// As `PRes`, for the one level that can yield no expression at all.
pub ghost struct PResOpt {
    pub expr: Option<ExprModel>,
    pub next: int,
    pub errs: Seq<ParseErrorModel>,
}

/// What parsing a whole token sequence yields: the top-level expressions,
/// the final cursor, and the syntax errors.
pub ghost struct ParseOutput {
    pub exprs: Seq<ExprModel>,
    pub next: int,
    pub errs: Seq<ParseErrorModel>,
}

/// A primary expression: a literal-bearing token becomes a `Literal` node; a
/// `(` opens a full expression that must be closed by `)`, the absence of
/// which is an error; anything else is an error with an empty message, after
/// which the offending token (never the end-of-input token) is skipped and
/// no expression is produced.
pub open spec fn sp_primary(toks: Seq<TokenModel>, i: int) -> PResOpt
    decreases toks.len() - i, 2int,
{
    let t = tok_at(toks, i);
    if t.kind == TokenType::False || t.kind == TokenType::True || t.kind == TokenType::Nil
        || t.kind == TokenType::Number || t.kind == TokenType::String {
        let lit = match t.literal {
            Option::Some(l) => l,
            Option::None => LiteralModel::Nil,  // excluded by well-formed tokens
        };
        PResOpt { expr: Option::Some(ExprModel::Literal(lit)), next: i + 1, errs: seq![] }
    } else if t.kind == TokenType::LeftParen && i < toks.len() {
        let r = sp_equality(toks, i + 1);
        if tok_at(toks, r.next).kind == TokenType::RightParen {
            PResOpt {
                expr: Option::Some(ExprModel::Grouping(Box::new(r.expr))),
                next: r.next + 1,
                errs: r.errs,
            }
        } else {
            PResOpt {
                expr: Option::None,
                next: r.next,
                errs: r.errs + seq![
                    ParseErrorModel {
                        message: expect_paren_message(),
                        token: tok_at(toks, r.next),
                    },
                ],
            }
        }
    } else {
        let err = ParseErrorModel { message: Seq::empty(), token: t };
        PResOpt {
            expr: Option::None,
            next: if t.kind == TokenType::Eof {
                i
            } else {
                i + 1
            },
            errs: seq![err],
        }
    }
}

/// A unary expression: `!` or `-` wraps a further unary expression; a failed
/// primary is replaced by a `nil` literal placeholder so the enclosing
/// levels complete structurally.
pub open spec fn sp_unary(toks: Seq<TokenModel>, i: int) -> PRes
    decreases toks.len() - i, 3int,
{
    let t = tok_at(toks, i);
    if (t.kind == TokenType::Bang || t.kind == TokenType::Minus) && i < toks.len() {
        let r = sp_unary(toks, i + 1);
        PRes {
            expr: ExprModel::Unary { operator: t, right: Box::new(r.expr) },
            next: r.next,
            errs: r.errs,
        }
    } else {
        let p = sp_primary(toks, i);
        PRes {
            expr: match p.expr {
                Option::Some(e) => e,
                Option::None => ExprModel::Literal(LiteralModel::Nil),
            },
            next: p.next,
            errs: p.errs,
        }
    }
}

/// The left-associative fold shared by all binary levels: while the current
/// token is one of this level's operators, consume it, parse the right
/// operand one level up, and wrap the accumulated expression.
pub open spec fn sp_factor_loop(acc: ExprModel, toks: Seq<TokenModel>, i: int) -> PRes
    decreases toks.len() - i, 4int,
{
    let t = tok_at(toks, i);
    if (t.kind == TokenType::Slash || t.kind == TokenType::Star) && i < toks.len() {
        let r = sp_unary(toks, i + 1);
        let acc2 = ExprModel::Binary { left: Box::new(acc), operator: t, right: Box::new(r.expr) };
        if i < r.next && r.next <= toks.len() {
            let rest = sp_factor_loop(acc2, toks, r.next);
            PRes { expr: rest.expr, next: rest.next, errs: r.errs + rest.errs }
        } else {
            // excluded: the level above never moves backwards
            PRes { expr: acc2, next: r.next, errs: r.errs }
        }
    } else {
        PRes { expr: acc, next: i, errs: seq![] }
    }
}

pub open spec fn sp_factor(toks: Seq<TokenModel>, i: int) -> PRes
    decreases toks.len() - i, 5int,
{
    let r = sp_unary(toks, i);
    if i <= r.next && r.next <= toks.len() {
        let rest = sp_factor_loop(r.expr, toks, r.next);
        PRes { expr: rest.expr, next: rest.next, errs: r.errs + rest.errs }
    } else {
        r
    }
}

pub open spec fn sp_term_loop(acc: ExprModel, toks: Seq<TokenModel>, i: int) -> PRes
    decreases toks.len() - i, 6int,
{
    let t = tok_at(toks, i);
    if (t.kind == TokenType::Minus || t.kind == TokenType::Plus) && i < toks.len() {
        let r = sp_factor(toks, i + 1);
        let acc2 = ExprModel::Binary { left: Box::new(acc), operator: t, right: Box::new(r.expr) };
        if i < r.next && r.next <= toks.len() {
            let rest = sp_term_loop(acc2, toks, r.next);
            PRes { expr: rest.expr, next: rest.next, errs: r.errs + rest.errs }
        } else {
            PRes { expr: acc2, next: r.next, errs: r.errs }
        }
    } else {
        PRes { expr: acc, next: i, errs: seq![] }
    }
}

pub open spec fn sp_term(toks: Seq<TokenModel>, i: int) -> PRes
    decreases toks.len() - i, 7int,
{
    let r = sp_factor(toks, i);
    if i <= r.next && r.next <= toks.len() {
        let rest = sp_term_loop(r.expr, toks, r.next);
        PRes { expr: rest.expr, next: rest.next, errs: r.errs + rest.errs }
    } else {
        r
    }
}

pub open spec fn sp_comparison_loop(acc: ExprModel, toks: Seq<TokenModel>, i: int) -> PRes
    decreases toks.len() - i, 8int,
{
    let t = tok_at(toks, i);
    if (t.kind == TokenType::Greater || t.kind == TokenType::GreaterEqual || t.kind
        == TokenType::Less || t.kind == TokenType::LessEqual) && i < toks.len() {
        let r = sp_term(toks, i + 1);
        let acc2 = ExprModel::Binary { left: Box::new(acc), operator: t, right: Box::new(r.expr) };
        if i < r.next && r.next <= toks.len() {
            let rest = sp_comparison_loop(acc2, toks, r.next);
            PRes { expr: rest.expr, next: rest.next, errs: r.errs + rest.errs }
        } else {
            PRes { expr: acc2, next: r.next, errs: r.errs }
        }
    } else {
        PRes { expr: acc, next: i, errs: seq![] }
    }
}

pub open spec fn sp_comparison(toks: Seq<TokenModel>, i: int) -> PRes
    decreases toks.len() - i, 9int,
{
    let r = sp_term(toks, i);
    if i <= r.next && r.next <= toks.len() {
        let rest = sp_comparison_loop(r.expr, toks, r.next);
        PRes { expr: rest.expr, next: rest.next, errs: r.errs + rest.errs }
    } else {
        r
    }
}

pub open spec fn sp_equality_loop(acc: ExprModel, toks: Seq<TokenModel>, i: int) -> PRes
    decreases toks.len() - i, 10int,
{
    let t = tok_at(toks, i);
    if (t.kind == TokenType::BangEqual || t.kind == TokenType::EqualEqual) && i < toks.len() {
        let r = sp_comparison(toks, i + 1);
        let acc2 = ExprModel::Binary { left: Box::new(acc), operator: t, right: Box::new(r.expr) };
        if i < r.next && r.next <= toks.len() {
            let rest = sp_equality_loop(acc2, toks, r.next);
            PRes { expr: rest.expr, next: rest.next, errs: r.errs + rest.errs }
        } else {
            PRes { expr: acc2, next: r.next, errs: r.errs }
        }
    } else {
        PRes { expr: acc, next: i, errs: seq![] }
    }
}

pub open spec fn sp_equality(toks: Seq<TokenModel>, i: int) -> PRes
    decreases toks.len() - i, 11int,
{
    let r = sp_comparison(toks, i);
    if i <= r.next && r.next <= toks.len() {
        let rest = sp_equality_loop(r.expr, toks, r.next);
        PRes { expr: rest.expr, next: rest.next, errs: r.errs + rest.errs }
    } else {
        r
    }
}

/// A full expression: the lowest-precedence level.
pub open spec fn sp_expression(toks: Seq<TokenModel>, i: int) -> PRes
    decreases toks.len() - i, 12int,
{
    sp_equality(toks, i)
}

/// The whole parse: expressions are parsed until the cursor reaches the
/// end-of-input token, which is never consumed.
pub open spec fn sp_parse(toks: Seq<TokenModel>, i: int) -> ParseOutput
    decreases toks.len() - i, 13int,
{
    if 0 <= i && i < toks.len() && toks[i].kind != TokenType::Eof {
        let r = sp_expression(toks, i);
        if i < r.next && r.next <= toks.len() {
            let rest = sp_parse(toks, r.next);
            ParseOutput {
                exprs: seq![r.expr] + rest.exprs,
                next: rest.next,
                errs: r.errs + rest.errs,
            }
        } else {
            // excluded: an expression always moves past a token that is not
            // the end-of-input token
            ParseOutput { exprs: seq![r.expr], next: r.next, errs: r.errs }
        }
    } else {
        ParseOutput { exprs: seq![], next: i, errs: seq![] }
    }
}

/// Bounds for a primary: the cursor never moves backwards nor past the
/// end-of-input token, and always moves when not standing on it.
pub proof fn lemma_primary_bounds(toks: Seq<TokenModel>, i: int)
    requires
        toks.len() >= 1,
        toks.last().kind == TokenType::Eof,
        0 <= i <= toks.len() - 1,
    ensures
        i <= sp_primary(toks, i).next <= toks.len() - 1,
        tok_at(toks, i).kind != TokenType::Eof ==> sp_primary(toks, i).next >= i + 1,
    decreases toks.len() - i, 2int,
{
    let t = tok_at(toks, i);
    if t.kind == TokenType::False || t.kind == TokenType::True || t.kind == TokenType::Nil
        || t.kind == TokenType::Number || t.kind == TokenType::String {
        assert(i < toks.len() - 1);
    } else if t.kind == TokenType::LeftParen && i < toks.len() {
        lemma_equality_bounds(toks, i + 1);
    } else {
    }
}

pub proof fn lemma_unary_bounds(toks: Seq<TokenModel>, i: int)
    requires
        toks.len() >= 1,
        toks.last().kind == TokenType::Eof,
        0 <= i <= toks.len() - 1,
    ensures
        i <= sp_unary(toks, i).next <= toks.len() - 1,
        tok_at(toks, i).kind != TokenType::Eof ==> sp_unary(toks, i).next >= i + 1,
    decreases toks.len() - i, 3int,
{
    let t = tok_at(toks, i);
    if (t.kind == TokenType::Bang || t.kind == TokenType::Minus) && i < toks.len() {
        lemma_unary_bounds(toks, i + 1);
    } else {
        lemma_primary_bounds(toks, i);
    }
}

pub proof fn lemma_factor_loop_bounds(acc: ExprModel, toks: Seq<TokenModel>, i: int)
    requires
        toks.len() >= 1,
        toks.last().kind == TokenType::Eof,
        0 <= i <= toks.len() - 1,
    ensures
        i <= sp_factor_loop(acc, toks, i).next <= toks.len() - 1,
    decreases toks.len() - i, 4int,
{
    let t = tok_at(toks, i);
    if (t.kind == TokenType::Slash || t.kind == TokenType::Star) && i < toks.len() {
        lemma_unary_bounds(toks, i + 1);
        let r = sp_unary(toks, i + 1);
        let acc2 = ExprModel::Binary { left: Box::new(acc), operator: t, right: Box::new(r.expr) };
        lemma_factor_loop_bounds(acc2, toks, r.next);
    }
}

pub proof fn lemma_factor_bounds(toks: Seq<TokenModel>, i: int)
    requires
        toks.len() >= 1,
        toks.last().kind == TokenType::Eof,
        0 <= i <= toks.len() - 1,
    ensures
        i <= sp_factor(toks, i).next <= toks.len() - 1,
        tok_at(toks, i).kind != TokenType::Eof ==> sp_factor(toks, i).next >= i + 1,
    decreases toks.len() - i, 5int,
{
    lemma_unary_bounds(toks, i);
    let r = sp_unary(toks, i);
    lemma_factor_loop_bounds(r.expr, toks, r.next);
}

pub proof fn lemma_term_loop_bounds(acc: ExprModel, toks: Seq<TokenModel>, i: int)
    requires
        toks.len() >= 1,
        toks.last().kind == TokenType::Eof,
        0 <= i <= toks.len() - 1,
    ensures
        i <= sp_term_loop(acc, toks, i).next <= toks.len() - 1,
    decreases toks.len() - i, 6int,
{
    let t = tok_at(toks, i);
    if (t.kind == TokenType::Minus || t.kind == TokenType::Plus) && i < toks.len() {
        lemma_factor_bounds(toks, i + 1);
        let r = sp_factor(toks, i + 1);
        let acc2 = ExprModel::Binary { left: Box::new(acc), operator: t, right: Box::new(r.expr) };
        lemma_term_loop_bounds(acc2, toks, r.next);
    }
}

pub proof fn lemma_term_bounds(toks: Seq<TokenModel>, i: int)
    requires
        toks.len() >= 1,
        toks.last().kind == TokenType::Eof,
        0 <= i <= toks.len() - 1,
    ensures
        i <= sp_term(toks, i).next <= toks.len() - 1,
        tok_at(toks, i).kind != TokenType::Eof ==> sp_term(toks, i).next >= i + 1,
    decreases toks.len() - i, 7int,
{
    lemma_factor_bounds(toks, i);
    let r = sp_factor(toks, i);
    lemma_term_loop_bounds(r.expr, toks, r.next);
}

pub proof fn lemma_comparison_loop_bounds(acc: ExprModel, toks: Seq<TokenModel>, i: int)
    requires
        toks.len() >= 1,
        toks.last().kind == TokenType::Eof,
        0 <= i <= toks.len() - 1,
    ensures
        i <= sp_comparison_loop(acc, toks, i).next <= toks.len() - 1,
    decreases toks.len() - i, 8int,
{
    let t = tok_at(toks, i);
    if (t.kind == TokenType::Greater || t.kind == TokenType::GreaterEqual || t.kind
        == TokenType::Less || t.kind == TokenType::LessEqual) && i < toks.len() {
        lemma_term_bounds(toks, i + 1);
        let r = sp_term(toks, i + 1);
        let acc2 = ExprModel::Binary { left: Box::new(acc), operator: t, right: Box::new(r.expr) };
        lemma_comparison_loop_bounds(acc2, toks, r.next);
    }
}

pub proof fn lemma_comparison_bounds(toks: Seq<TokenModel>, i: int)
    requires
        toks.len() >= 1,
        toks.last().kind == TokenType::Eof,
        0 <= i <= toks.len() - 1,
    ensures
        i <= sp_comparison(toks, i).next <= toks.len() - 1,
        tok_at(toks, i).kind != TokenType::Eof ==> sp_comparison(toks, i).next >= i + 1,
    decreases toks.len() - i, 9int,
{
    lemma_term_bounds(toks, i);
    let r = sp_term(toks, i);
    lemma_comparison_loop_bounds(r.expr, toks, r.next);
}

pub proof fn lemma_equality_loop_bounds(acc: ExprModel, toks: Seq<TokenModel>, i: int)
    requires
        toks.len() >= 1,
        toks.last().kind == TokenType::Eof,
        0 <= i <= toks.len() - 1,
    ensures
        i <= sp_equality_loop(acc, toks, i).next <= toks.len() - 1,
    decreases toks.len() - i, 10int,
{
    let t = tok_at(toks, i);
    if (t.kind == TokenType::BangEqual || t.kind == TokenType::EqualEqual) && i < toks.len() {
        lemma_comparison_bounds(toks, i + 1);
        let r = sp_comparison(toks, i + 1);
        let acc2 = ExprModel::Binary { left: Box::new(acc), operator: t, right: Box::new(r.expr) };
        lemma_equality_loop_bounds(acc2, toks, r.next);
    }
}

pub proof fn lemma_equality_bounds(toks: Seq<TokenModel>, i: int)
    requires
        toks.len() >= 1,
        toks.last().kind == TokenType::Eof,
        0 <= i <= toks.len() - 1,
    ensures
        i <= sp_equality(toks, i).next <= toks.len() - 1,
        tok_at(toks, i).kind != TokenType::Eof ==> sp_equality(toks, i).next >= i + 1,
    decreases toks.len() - i, 11int,
{
    lemma_comparison_bounds(toks, i);
    let r = sp_comparison(toks, i);
    lemma_equality_loop_bounds(r.expr, toks, r.next);
}

/// Bounds for a whole expression: the cursor stays within the tokens, never
/// passes the end-of-input token, and always moves when not standing on it.
pub proof fn lemma_expression_bounds(toks: Seq<TokenModel>, i: int)
    requires
        toks.len() >= 1,
        toks.last().kind == TokenType::Eof,
        0 <= i <= toks.len() - 1,
    ensures
        i <= sp_expression(toks, i).next <= toks.len() - 1,
        tok_at(toks, i).kind != TokenType::Eof ==> sp_expression(toks, i).next >= i + 1,
{
    lemma_equality_bounds(toks, i);
}

/// Bounds for the whole parse: the final cursor stands on a token, and that
/// token is the end-of-input token, which is never consumed.
pub proof fn lemma_parse_bounds(toks: Seq<TokenModel>, i: int)
    requires
        toks.len() >= 1,
        toks.last().kind == TokenType::Eof,
        0 <= i <= toks.len() - 1,
    ensures
        i <= sp_parse(toks, i).next <= toks.len() - 1,
        tok_at(toks, sp_parse(toks, i).next).kind == TokenType::Eof,
    decreases toks.len() - i, 13int,
{
    if toks[i].kind != TokenType::Eof {
        lemma_expression_bounds(toks, i);
        let r = sp_expression(toks, i);
        lemma_parse_bounds(toks, r.next);
    }
}

} // verus!
