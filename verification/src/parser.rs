//! The recursive-descent parser: consumes a token sequence terminated by the
//! end-of-input token and produces top-level expression trees, collecting
//! syntax errors without aborting the parse.  Its behaviour is specified
//! exactly by the model in `parse_model`.

use vstd::prelude::*;
use vstd::string::StringExecFns;

use crate::expression::{exprs_view, ExprModel, Expression};
use crate::parse_model::{
    sp_comparison, sp_comparison_loop, sp_equality, sp_equality_loop, sp_expression, sp_factor,
    sp_factor_loop, sp_parse, sp_primary, sp_term, sp_term_loop, sp_unary, tok_at, wf_tokens,
    ParseErrorModel,
};
use crate::token::{token_wf, tokens_view, Literal, Token, TokenModel, TokenType};

verus! {

/// A syntax error: a human-readable message and the offending token, which
/// carries its own source position.
#[derive(Debug)]
pub struct ParserError {
    pub message: std::string::String,
    pub token: Token,
}

impl View for ParserError {
    type V = ParseErrorModel;

    open spec fn view(&self) -> ParseErrorModel {
        ParseErrorModel { message: self.message@, token: self.token@ }
    }
}

impl ParserError {
    pub fn new(message: std::string::String, token: Token) -> (e: ParserError)
        ensures
            e@ == (ParseErrorModel { message: message@, token: token@ }),
    {
        ParserError { message, token }
    }
}

/// The view of a whole error sequence.
pub open spec fn parse_errors_view(es: Seq<ParserError>) -> Seq<ParseErrorModel> {
    es.map_values(|e: ParserError| e@)
}

proof fn lemma_kinds_one(s: Seq<TokenType>, a: TokenType, k: TokenType)
    requires
        s == seq![a],
    ensures
        s.contains(k) == (k == a),
{
    if k == a {
        assert(s[0] == k);
    }
    if s.contains(k) {
        let j = choose|j: int| 0 <= j < s.len() && s[j] == k;
        assert(j == 0);
    }
}

proof fn lemma_kinds_two(s: Seq<TokenType>, a: TokenType, b: TokenType, k: TokenType)
    requires
        s == seq![a, b],
    ensures
        s.contains(k) == (k == a || k == b),
{
    if k == a {
        assert(s[0] == k);
    } else if k == b {
        assert(s[1] == k);
    }
    if s.contains(k) {
        let j = choose|j: int| 0 <= j < s.len() && s[j] == k;
        assert(j == 0 || j == 1);
    }
}

proof fn lemma_kinds_five(
    s: Seq<TokenType>,
    a: TokenType,
    b: TokenType,
    c: TokenType,
    d: TokenType,
    e: TokenType,
    k: TokenType,
)
    requires
        s == seq![a, b, c, d, e],
    ensures
        s.contains(k) == (k == a || k == b || k == c || k == d || k == e),
{
    if k == a {
        assert(s[0] == k);
    } else if k == b {
        assert(s[1] == k);
    } else if k == c {
        assert(s[2] == k);
    } else if k == d {
        assert(s[3] == k);
    } else if k == e {
        assert(s[4] == k);
    }
    if s.contains(k) {
        let j = choose|j: int| 0 <= j < s.len() && s[j] == k;
        assert(j == 0 || j == 1 || j == 2 || j == 3 || j == 4);
    }
}

/// The parser state: the tokens, a cursor into them, and the syntax errors
/// accumulated so far.
pub struct Parser {
    pub tokens: Vec<Token>,
    pub current: usize,
    pub errors: Vec<ParserError>,
}

impl Parser {
    /// The models of the tokens being parsed.
    pub open spec fn toks(self) -> Seq<TokenModel> {
        tokens_view(self.tokens@)
    }

    /// The state is well formed: the tokens are fit for parsing and the
    /// cursor stands on one of them.
    pub open spec fn wf(self) -> bool {
        &&& wf_tokens(self.toks())
        &&& self.current < self.tokens@.len()
        &&& self.tokens@.len() < usize::MAX
    }

    pub fn new(tokens: Vec<Token>) -> (p: Parser)
        ensures
            p.tokens == tokens,
            p.current == 0,
            p.errors@ == Seq::<ParserError>::empty(),
    {
        Parser { tokens, current: 0, errors: Vec::new() }
    }

    /// Parses expressions until the cursor reaches the end-of-input token,
    /// which is never consumed: the expressions and errors are exactly those
    /// of the model, and the final cursor stands on an end-of-input token.
    pub fn parse(&mut self) -> (expressions: Vec<Expression>)
        requires
            old(self).wf(),
        ensures
            final(self).wf(),
            final(self).tokens == old(self).tokens,
            exprs_view(expressions@) == sp_parse(old(self).toks(), old(self).current as int).exprs,
            final(self).current == sp_parse(old(self).toks(), old(self).current as int).next,
            parse_errors_view(final(self).errors@) == parse_errors_view(old(self).errors@)
                + sp_parse(old(self).toks(), old(self).current as int).errs,
            final(self).current < final(self).tokens@.len(),
            final(self).toks()[final(self).current as int].kind == TokenType::Eof,
    {
        let ghost toks = old(self).toks();
        let ghost i0 = old(self).current as int;
        let mut expressions: Vec<Expression> = Vec::new();
        while !self.is_at_end()
            invariant
                self.wf(),
                self.tokens == old(self).tokens,
                toks == self.toks(),
                i0 == old(self).current,
                i0 <= self.current,
                exprs_view(expressions@) + sp_parse(toks, self.current as int).exprs == sp_parse(
                    toks,
                    i0,
                ).exprs,
                parse_errors_view(self.errors@) + sp_parse(toks, self.current as int).errs
                    == parse_errors_view(old(self).errors@) + sp_parse(toks, i0).errs,
                sp_parse(toks, self.current as int).next == sp_parse(toks, i0).next,
            decreases toks.len() - self.current,
        {
            let ghost pre = self.current as int;
            proof {
                crate::parse_model::lemma_expression_bounds(toks, pre);
            }
            let e = self.expression();
            expressions.push(e);
            proof {
                let r = sp_expression(toks, pre);
                assert(sp_parse(toks, pre).exprs =~= seq![r.expr] + sp_parse(toks, r.next).exprs);
                assert(sp_parse(toks, pre).errs =~= r.errs + sp_parse(toks, r.next).errs);
                assert(exprs_view(expressions@) + sp_parse(toks, self.current as int).exprs
                    =~= sp_parse(toks, i0).exprs);
                assert(parse_errors_view(self.errors@) + sp_parse(toks, self.current as int).errs
                    =~= parse_errors_view(old(self).errors@) + sp_parse(toks, i0).errs);
            }
        }
        proof {
            assert(exprs_view(expressions@) =~= sp_parse(toks, i0).exprs);
            assert(parse_errors_view(self.errors@) =~= parse_errors_view(old(self).errors@)
                + sp_parse(toks, i0).errs);
        }
        expressions
    }

    /// Consumes and returns the current token; the cursor never passes the
    /// end-of-input token.
    fn advance(&mut self) -> (t: Token)
        requires
            old(self).wf(),
            old(self).toks()[old(self).current as int].kind != TokenType::Eof,
        ensures
            final(self).wf(),
            final(self).tokens == old(self).tokens,
            final(self).errors == old(self).errors,
            final(self).current == old(self).current + 1,
            t == old(self).tokens@[old(self).current as int],
    {
        if !self.is_at_end() {
            self.current = self.current + 1;
        }
        self.previous()
    }

    fn is_at_end(&self) -> (b: bool)
        requires
            self.current < self.tokens@.len(),
        ensures
            b == (self.toks()[self.current as int].kind == TokenType::Eof),
    {
        self.peek().token_type == TokenType::Eof
    }

    fn peek(&self) -> (t: Token)
        requires
            self.current < self.tokens@.len(),
        ensures
            t == self.tokens@[self.current as int],
    {
        self.tokens[self.current].clone()
    }

    fn previous(&self) -> (t: Token)
        requires
            1 <= self.current <= self.tokens@.len(),
        ensures
            t == self.tokens@[self.current - 1],
    {
        self.tokens[self.current - 1].clone()
    }

    /// Consumes the current token when its category is one of those given;
    /// otherwise leaves the cursor alone.
    fn advance_for_token_types(&mut self, token_types: Vec<TokenType>) -> (matched: bool)
        requires
            old(self).wf(),
        ensures
            final(self).wf(),
            final(self).tokens == old(self).tokens,
            final(self).errors == old(self).errors,
            matched == (old(self).toks()[old(self).current as int].kind != TokenType::Eof
                && token_types@.contains(old(self).toks()[old(self).current as int].kind)),
            matched ==> final(self).current == old(self).current + 1,
            !matched ==> final(self).current == old(self).current,
    {
        let ghost kind = old(self).toks()[old(self).current as int].kind;
        let n = token_types.len();
        let mut k: usize = 0;
        while k < n
            invariant
                *self == *old(self),
                self.wf(),
                kind == old(self).toks()[old(self).current as int].kind,
                k <= n == token_types@.len(),
                forall|j: int|
                    0 <= j < k ==> !(kind != TokenType::Eof && token_types@[j] == kind),
            decreases n - k,
        {
            if self.check_future_for_token(token_types[k]) {
                self.advance();
                return true;
            }
            k = k + 1;
        }
        assert(!(kind != TokenType::Eof && token_types@.contains(kind)));
        return false;
    }

    /// Whether the current token has the expected category, without
    /// consuming it; the end-of-input token matches nothing.
    fn check_future_for_token(&self, token_type: TokenType) -> (b: bool)
        requires
            self.current < self.tokens@.len(),
        ensures
            b == (self.toks()[self.current as int].kind != TokenType::Eof && self.toks()[self.current as int].kind
                == token_type),
    {
        if self.is_at_end() {
            return false;
        }
        self.peek().token_type == token_type
    }
}

impl Parser {
    fn expression(&mut self) -> (e: Expression)
        requires
            old(self).wf(),
        ensures
            final(self).wf(),
            final(self).tokens == old(self).tokens,
            e@ == sp_expression(old(self).toks(), old(self).current as int).expr,
            final(self).current == sp_expression(old(self).toks(), old(self).current as int).next,
            parse_errors_view(final(self).errors@) == parse_errors_view(old(self).errors@)
                + sp_expression(old(self).toks(), old(self).current as int).errs,
        decreases self.tokens@.len() - self.current, 12int,
    {
        self.equality()
    }

    #[verifier::rlimit(50)]
    fn equality(&mut self) -> (e: Expression)
        requires
            old(self).wf(),
        ensures
            final(self).wf(),
            final(self).tokens == old(self).tokens,
            old(self).current <= final(self).current,
            e@ == sp_equality(old(self).toks(), old(self).current as int).expr,
            final(self).current == sp_equality(old(self).toks(), old(self).current as int).next,
            parse_errors_view(final(self).errors@) == parse_errors_view(old(self).errors@)
                + sp_equality(old(self).toks(), old(self).current as int).errs,
        decreases self.tokens@.len() - self.current, 11int,
    {
        let ghost toks = old(self).toks();
        let ghost i0 = old(self).current as int;
        proof {
            crate::parse_model::lemma_comparison_bounds(toks, i0);
        }
        let mut expression: Expression = self.comparison();
        while self.check_future_for_token(TokenType::BangEqual) || self.check_future_for_token(
            TokenType::EqualEqual,
        )
            invariant
                self.wf(),
                self.tokens == old(self).tokens,
                toks == self.toks(),
                i0 == old(self).current,
                i0 <= self.current,
                sp_equality(toks, i0).expr == sp_equality_loop(
                    expression@,
                    toks,
                    self.current as int,
                ).expr,
                sp_equality(toks, i0).next == sp_equality_loop(
                    expression@,
                    toks,
                    self.current as int,
                ).next,
                parse_errors_view(self.errors@) + sp_equality_loop(
                    expression@,
                    toks,
                    self.current as int,
                ).errs == parse_errors_view(old(self).errors@) + sp_equality(toks, i0).errs,
            decreases toks.len() - self.current,
        {
            let ghost p = self.current as int;
            let operator: Token = self.advance();
            proof {
                crate::parse_model::lemma_comparison_bounds(toks, p + 1);
            }
            let right: Expression = self.comparison();
            expression = Expression::new_binary(Box::new(expression), operator, Box::new(right));
            proof {
                let r = sp_comparison(toks, p + 1);
                assert(parse_errors_view(self.errors@) + sp_equality_loop(
                    expression@,
                    toks,
                    self.current as int,
                ).errs =~= parse_errors_view(old(self).errors@) + sp_equality(toks, i0).errs);
            }
        }
        proof {
            assert(parse_errors_view(self.errors@) =~= parse_errors_view(old(self).errors@)
                + sp_equality(toks, i0).errs);
        }
        expression
    }

    #[verifier::rlimit(50)]
    fn comparison(&mut self) -> (e: Expression)
        requires
            old(self).wf(),
        ensures
            final(self).wf(),
            final(self).tokens == old(self).tokens,
            old(self).current <= final(self).current,
            e@ == sp_comparison(old(self).toks(), old(self).current as int).expr,
            final(self).current == sp_comparison(old(self).toks(), old(self).current as int).next,
            parse_errors_view(final(self).errors@) == parse_errors_view(old(self).errors@)
                + sp_comparison(old(self).toks(), old(self).current as int).errs,
        decreases self.tokens@.len() - self.current, 9int,
    {
        let ghost toks = old(self).toks();
        let ghost i0 = old(self).current as int;
        proof {
            crate::parse_model::lemma_term_bounds(toks, i0);
        }
        let mut expression: Expression = self.term();
        while self.check_future_for_token(TokenType::Greater) || self.check_future_for_token(
            TokenType::GreaterEqual,
        ) || self.check_future_for_token(TokenType::Less) || self.check_future_for_token(
            TokenType::LessEqual,
        )
            invariant
                self.wf(),
                self.tokens == old(self).tokens,
                toks == self.toks(),
                i0 == old(self).current,
                i0 <= self.current,
                sp_comparison(toks, i0).expr == sp_comparison_loop(
                    expression@,
                    toks,
                    self.current as int,
                ).expr,
                sp_comparison(toks, i0).next == sp_comparison_loop(
                    expression@,
                    toks,
                    self.current as int,
                ).next,
                parse_errors_view(self.errors@) + sp_comparison_loop(
                    expression@,
                    toks,
                    self.current as int,
                ).errs == parse_errors_view(old(self).errors@) + sp_comparison(toks, i0).errs,
            decreases toks.len() - self.current,
        {
            let ghost p = self.current as int;
            let operator = self.advance();
            proof {
                crate::parse_model::lemma_term_bounds(toks, p + 1);
            }
            let right = self.term();
            expression = Expression::new_binary(Box::new(expression), operator, Box::new(right));
            proof {
                assert(parse_errors_view(self.errors@) + sp_comparison_loop(
                    expression@,
                    toks,
                    self.current as int,
                ).errs =~= parse_errors_view(old(self).errors@) + sp_comparison(toks, i0).errs);
            }
        }
        proof {
            assert(parse_errors_view(self.errors@) =~= parse_errors_view(old(self).errors@)
                + sp_comparison(toks, i0).errs);
        }
        expression
    }

    #[verifier::rlimit(50)]
    fn term(&mut self) -> (e: Expression)
        requires
            old(self).wf(),
        ensures
            final(self).wf(),
            final(self).tokens == old(self).tokens,
            old(self).current <= final(self).current,
            e@ == sp_term(old(self).toks(), old(self).current as int).expr,
            final(self).current == sp_term(old(self).toks(), old(self).current as int).next,
            parse_errors_view(final(self).errors@) == parse_errors_view(old(self).errors@)
                + sp_term(old(self).toks(), old(self).current as int).errs,
        decreases self.tokens@.len() - self.current, 7int,
    {
        let ghost toks = old(self).toks();
        let ghost i0 = old(self).current as int;
        proof {
            crate::parse_model::lemma_factor_bounds(toks, i0);
        }
        let mut expression: Expression = self.factor();
        while self.check_future_for_token(TokenType::Minus) || self.check_future_for_token(
            TokenType::Plus,
        )
            invariant
                self.wf(),
                self.tokens == old(self).tokens,
                toks == self.toks(),
                i0 == old(self).current,
                i0 <= self.current,
                sp_term(toks, i0).expr == sp_term_loop(expression@, toks, self.current as int).expr,
                sp_term(toks, i0).next == sp_term_loop(expression@, toks, self.current as int).next,
                parse_errors_view(self.errors@) + sp_term_loop(
                    expression@,
                    toks,
                    self.current as int,
                ).errs == parse_errors_view(old(self).errors@) + sp_term(toks, i0).errs,
            decreases toks.len() - self.current,
        {
            let ghost p = self.current as int;
            let operator = self.advance();
            proof {
                crate::parse_model::lemma_factor_bounds(toks, p + 1);
            }
            let right = self.factor();
            expression = Expression::new_binary(Box::new(expression), operator, Box::new(right));
            proof {
                assert(parse_errors_view(self.errors@) + sp_term_loop(
                    expression@,
                    toks,
                    self.current as int,
                ).errs =~= parse_errors_view(old(self).errors@) + sp_term(toks, i0).errs);
            }
        }
        proof {
            assert(parse_errors_view(self.errors@) =~= parse_errors_view(old(self).errors@)
                + sp_term(toks, i0).errs);
        }
        expression
    }

    #[verifier::rlimit(50)]
    fn factor(&mut self) -> (e: Expression)
        requires
            old(self).wf(),
        ensures
            final(self).wf(),
            final(self).tokens == old(self).tokens,
            old(self).current <= final(self).current,
            e@ == sp_factor(old(self).toks(), old(self).current as int).expr,
            final(self).current == sp_factor(old(self).toks(), old(self).current as int).next,
            parse_errors_view(final(self).errors@) == parse_errors_view(old(self).errors@)
                + sp_factor(old(self).toks(), old(self).current as int).errs,
        decreases self.tokens@.len() - self.current, 5int,
    {
        let ghost toks = old(self).toks();
        let ghost i0 = old(self).current as int;
        proof {
            crate::parse_model::lemma_unary_bounds(toks, i0);
        }
        let mut expression: Expression = self.unary();
        while self.check_future_for_token(TokenType::Slash) || self.check_future_for_token(
            TokenType::Star,
        )
            invariant
                self.wf(),
                self.tokens == old(self).tokens,
                toks == self.toks(),
                i0 == old(self).current,
                i0 <= self.current,
                sp_factor(toks, i0).expr == sp_factor_loop(
                    expression@,
                    toks,
                    self.current as int,
                ).expr,
                sp_factor(toks, i0).next == sp_factor_loop(
                    expression@,
                    toks,
                    self.current as int,
                ).next,
                parse_errors_view(self.errors@) + sp_factor_loop(
                    expression@,
                    toks,
                    self.current as int,
                ).errs == parse_errors_view(old(self).errors@) + sp_factor(toks, i0).errs,
            decreases toks.len() - self.current,
        {
            let ghost p = self.current as int;
            let operator = self.advance();
            proof {
                crate::parse_model::lemma_unary_bounds(toks, p + 1);
            }
            let right = self.unary();
            expression = Expression::new_binary(Box::new(expression), operator, Box::new(right));
            proof {
                assert(parse_errors_view(self.errors@) + sp_factor_loop(
                    expression@,
                    toks,
                    self.current as int,
                ).errs =~= parse_errors_view(old(self).errors@) + sp_factor(toks, i0).errs);
            }
        }
        proof {
            assert(parse_errors_view(self.errors@) =~= parse_errors_view(old(self).errors@)
                + sp_factor(toks, i0).errs);
        }
        expression
    }

    fn unary(&mut self) -> (e: Expression)
        requires
            old(self).wf(),
        ensures
            final(self).wf(),
            final(self).tokens == old(self).tokens,
            old(self).current <= final(self).current,
            e@ == sp_unary(old(self).toks(), old(self).current as int).expr,
            final(self).current == sp_unary(old(self).toks(), old(self).current as int).next,
            parse_errors_view(final(self).errors@) == parse_errors_view(old(self).errors@)
                + sp_unary(old(self).toks(), old(self).current as int).errs,
        decreases self.tokens@.len() - self.current, 3int,
    {
        let ghost toks = old(self).toks();
        let ghost i0 = old(self).current as int;
        let mut kinds: Vec<TokenType> = Vec::new();
        kinds.push(TokenType::Bang);
        kinds.push(TokenType::Minus);
        let ghost lk = kinds@;
        proof {
            assert(lk =~= seq![TokenType::Bang, TokenType::Minus]);
            lemma_kinds_two(lk, TokenType::Bang, TokenType::Minus, tok_at(toks, i0).kind);
        }
        if self.advance_for_token_types(kinds) {
            let operator = self.previous();
            proof {
                crate::parse_model::lemma_unary_bounds(toks, i0 + 1);
            }
            let right = self.unary();
            proof {
                assert(parse_errors_view(self.errors@) =~= parse_errors_view(old(self).errors@)
                    + sp_unary(toks, i0).errs);
            }
            return Expression::new_unary(operator, Box::new(right));
        }

        let p = self.primary();
        match p {
            Option::Some(e) => e,
            Option::None => Expression::new_literal(Literal::Nil),
        }
    }

    #[verifier::rlimit(50)]
    fn primary(&mut self) -> (e: Option<Expression>)
        requires
            old(self).wf(),
        ensures
            final(self).wf(),
            final(self).tokens == old(self).tokens,
            old(self).current <= final(self).current,
            (match e {
                Option::Some(x) => sp_primary(old(self).toks(), old(self).current as int).expr
                    == Option::Some(x@),
                Option::None => sp_primary(old(self).toks(), old(self).current as int).expr
                    is None,
            }),
            final(self).current == sp_primary(old(self).toks(), old(self).current as int).next,
            parse_errors_view(final(self).errors@) == parse_errors_view(old(self).errors@)
                + sp_primary(old(self).toks(), old(self).current as int).errs,
        decreases self.tokens@.len() - self.current, 2int,
    {
        let ghost toks = old(self).toks();
        let ghost i0 = old(self).current as int;
        let mut literal_kinds: Vec<TokenType> = Vec::new();
        literal_kinds.push(TokenType::False);
        literal_kinds.push(TokenType::True);
        literal_kinds.push(TokenType::Nil);
        literal_kinds.push(TokenType::Number);
        literal_kinds.push(TokenType::String);
        let ghost lk = literal_kinds@;
        proof {
            assert(lk =~= seq![
                TokenType::False,
                TokenType::True,
                TokenType::Nil,
                TokenType::Number,
                TokenType::String,
            ]);
            lemma_kinds_five(
                lk,
                TokenType::False,
                TokenType::True,
                TokenType::Nil,
                TokenType::Number,
                TokenType::String,
                tok_at(toks, i0).kind,
            );
        }
        if self.advance_for_token_types(literal_kinds) {
            let token = self.previous();
            match token.literal {
                Option::Some(lit) => {
                    return Option::Some(Expression::new_literal(lit));
                },
                Option::None => {
                    proof {
                        assert(token_wf(toks[i0]));
                        assert(false);
                    }
                    return Option::None;
                },
            }
        }

        let mut paren_kind: Vec<TokenType> = Vec::new();
        paren_kind.push(TokenType::LeftParen);
        let ghost pk = paren_kind@;
        proof {
            assert(pk =~= seq![TokenType::LeftParen]);
            lemma_kinds_one(pk, TokenType::LeftParen, tok_at(toks, i0).kind);
        }
        if self.advance_for_token_types(paren_kind) {
            let expression = self.expression();
            proof {
                crate::parse_model::lemma_expression_bounds(toks, i0 + 1);
            }
            if self.check_future_for_token(TokenType::RightParen) {
                self.advance();
                return Option::Some(Expression::new_grouping(expression));
            }
            let token = self.peek();
            let message = std::string::String::from_str("Expect ')' after expression.");
            let ghost errs_before = self.errors@;
            self.errors.push(ParserError { message, token });
            proof {
                let r = sp_equality(toks, i0 + 1);
                let err = ParseErrorModel {
                    message: crate::parse_model::expect_paren_message(),
                    token: tok_at(toks, r.next),
                };
                assert(sp_primary(toks, i0).errs == r.errs + seq![err]);
                assert(self.errors@.last()@ == err);
                assert(self.errors@ == errs_before.push(self.errors@.last()));
                assert(parse_errors_view(errs_before) == parse_errors_view(old(self).errors@)
                    + r.errs);
                assert(parse_errors_view(self.errors@) =~= parse_errors_view(errs_before).push(
                    err,
                ));
                assert(parse_errors_view(self.errors@) =~= parse_errors_view(old(self).errors@)
                    + sp_primary(toks, i0).errs);
            }
            return Option::None;
        }

        // no primary expression starts here: record an error with an empty
        // message at the current token and skip it, so the whole parse still
        // moves forward
        let token = self.peek();
        self.errors.push(ParserError { message: std::string::String::new(), token });
        if !self.is_at_end() {
            self.current = self.current + 1;
        }
        proof {
            assert(parse_errors_view(self.errors@) =~= parse_errors_view(old(self).errors@)
                + sp_primary(toks, i0).errs);
        }
        Option::None
    }
}

} // verus!
