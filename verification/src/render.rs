//! Rendering for diagnostic and trace output: tokens as
//! `<KIND> <lexeme> <literal-or-'null'>`, expressions in parenthesized
//! prefix form, and errors as `[line <N>] Error: <message>`.

use vstd::prelude::*;

use crate::expression::{expr_view, ExprModel, Expression};
use crate::parse_model::ParseErrorModel;
use crate::parser::ParserError;
use crate::scan_model::ScanErrorModel;
use crate::scanner::ScannerError;
use crate::text::{dec_chars, push_dec_chars, push_str_chars, string_from_chars};
use crate::token::{Literal, LiteralModel, Token, TokenModel, TokenType};

verus! {

/// The display name of a lexical category.
pub open spec fn kind_text(k: TokenType) -> Seq<char> {
    match k {
        TokenType::LeftParen => "LEFT_PAREN"@,
        TokenType::RightParen => "RIGHT_PAREN"@,
        TokenType::LeftBrace => "LEFT_BRACE"@,
        TokenType::RightBrace => "RIGHT_BRACE"@,
        TokenType::Comma => "COMMA"@,
        TokenType::Dot => "DOT"@,
        TokenType::Minus => "MINUS"@,
        TokenType::Plus => "PLUS"@,
        TokenType::Semicolon => "SEMICOLON"@,
        TokenType::Star => "STAR"@,
        TokenType::Bang => "BANG"@,
        TokenType::BangEqual => "BANG_EQUAL"@,
        TokenType::Equal => "EQUAL"@,
        TokenType::EqualEqual => "EQUAL_EQUAL"@,
        TokenType::Greater => "GREATER"@,
        TokenType::GreaterEqual => "GREATER_EQUAL"@,
        TokenType::Less => "LESS"@,
        TokenType::LessEqual => "LESS_EQUAL"@,
        TokenType::Slash => "SLASH"@,
        TokenType::String => "STRING"@,
        TokenType::Number => "NUMBER"@,
        TokenType::True => "TRUE"@,
        TokenType::False => "FALSE"@,
        TokenType::Nil => "NIL"@,
        TokenType::Eof => "EOF"@,
    }
}

/// The display value of a literal: string and number literals render their
/// value (a number as its exact numeral text), `nil` renders as `nil`,
/// booleans as `true` or `false`; an identifier's name is not echoed.
pub open spec fn literal_text(l: LiteralModel) -> Seq<char> {
    match l {
        LiteralModel::Identifier(_) => "null"@,
        LiteralModel::Str(s) => s,
        LiteralModel::Number(t) => t,
        LiteralModel::Boolean(b) => if b {
            "true"@
        } else {
            "false"@
        },
        LiteralModel::Nil => "nil"@,
    }
}

/// How a token renders: its category, its lexeme, and its literal, where a
/// missing literal and the semantic value of a boolean or identifier literal
/// both render as `null`.
pub open spec fn token_text(t: TokenModel) -> Seq<char> {
    let lit = match t.literal {
        Option::None => "null"@,
        Option::Some(LiteralModel::Boolean(_)) => "null"@,
        Option::Some(LiteralModel::Identifier(_)) => "null"@,
        Option::Some(l) => literal_text(l),
    };
    kind_text(t.kind) + seq![' '] + t.lexeme + seq![' '] + lit
}

/// How an expression renders: parenthesized prefix form, with a binary or
/// unary operator shown by its lexeme and a grouping shown as `group`.
pub open spec fn expr_text(e: ExprModel) -> Seq<char>
    decreases e,
{
    match e {
        ExprModel::Binary { left, operator, right } => seq!['('] + operator.lexeme + seq![' ']
            + expr_text(*left) + seq![' '] + expr_text(*right) + seq![')'],
        ExprModel::Grouping(inner) => "(group "@ + expr_text(*inner) + seq![')'],
        ExprModel::Unary { operator, right } => seq!['('] + operator.lexeme + seq![' ']
            + expr_text(*right) + seq![')'],
        ExprModel::Literal(l) => literal_text(l),
    }
}

/// How a lexical error renders.
pub open spec fn scan_error_text(e: ScanErrorModel) -> Seq<char> {
    "[line "@ + dec_chars(e.line) + "] Error: "@ + e.message
}

/// How a syntax error renders: the position is the offending token's line.
pub open spec fn parse_error_text(e: ParseErrorModel) -> Seq<char> {
    "[line "@ + dec_chars(e.token.line) + "] Error: "@ + e.message
}

impl Literal {
    /// The display value of this literal.
    pub fn render(&self) -> (s: std::string::String)
        ensures
            s@ == literal_text(self@),
    {
        let mut out: Vec<char> = Vec::new();
        match self {
            Literal::Identifier(_) => push_str_chars(&mut out, "null"),
            Literal::String(v) => push_str_chars(&mut out, v.as_str()),
            Literal::Number(t) => push_str_chars(&mut out, t.as_str()),
            Literal::Boolean(b) => {
                if *b {
                    push_str_chars(&mut out, "true");
                } else {
                    push_str_chars(&mut out, "false");
                }
            },
            Literal::Nil => push_str_chars(&mut out, "nil"),
        }
        proof {
            assert(out@ =~= literal_text(self@));
        }
        string_from_chars(&out)
    }
}

/// The display name of a lexical category.
pub fn kind_name(k: TokenType) -> (s: &'static str)
    ensures
        s@ == kind_text(k),
{
    match k {
        TokenType::LeftParen => "LEFT_PAREN",
        TokenType::RightParen => "RIGHT_PAREN",
        TokenType::LeftBrace => "LEFT_BRACE",
        TokenType::RightBrace => "RIGHT_BRACE",
        TokenType::Comma => "COMMA",
        TokenType::Dot => "DOT",
        TokenType::Minus => "MINUS",
        TokenType::Plus => "PLUS",
        TokenType::Semicolon => "SEMICOLON",
        TokenType::Star => "STAR",
        TokenType::Bang => "BANG",
        TokenType::BangEqual => "BANG_EQUAL",
        TokenType::Equal => "EQUAL",
        TokenType::EqualEqual => "EQUAL_EQUAL",
        TokenType::Greater => "GREATER",
        TokenType::GreaterEqual => "GREATER_EQUAL",
        TokenType::Less => "LESS",
        TokenType::LessEqual => "LESS_EQUAL",
        TokenType::Slash => "SLASH",
        TokenType::String => "STRING",
        TokenType::Number => "NUMBER",
        TokenType::True => "TRUE",
        TokenType::False => "FALSE",
        TokenType::Nil => "NIL",
        TokenType::Eof => "EOF",
    }
}

impl Token {
    /// This token in the form `<KIND> <lexeme> <literal-or-'null'>`.
    pub fn render(&self) -> (s: std::string::String)
        ensures
            s@ == token_text(self@),
    {
        let mut out: Vec<char> = Vec::new();
        push_str_chars(&mut out, kind_name(self.token_type));
        out.push(' ');
        push_str_chars(&mut out, self.lexeme.as_str());
        out.push(' ');
        match &self.literal {
            Option::None => push_str_chars(&mut out, "null"),
            Option::Some(Literal::Boolean(_)) => push_str_chars(&mut out, "null"),
            Option::Some(Literal::Identifier(_)) => push_str_chars(&mut out, "null"),
            Option::Some(Literal::Nil) => push_str_chars(&mut out, "nil"),
            Option::Some(Literal::String(v)) => push_str_chars(&mut out, v.as_str()),
            Option::Some(Literal::Number(t)) => push_str_chars(&mut out, t.as_str()),
        }
        proof {
            assert(out@ =~= token_text(self@));
        }
        string_from_chars(&out)
    }
}

impl Expression {
    /// This expression in parenthesized prefix form.
    pub fn render(&self) -> (s: std::string::String)
        ensures
            s@ == expr_text(self@),
    {
        let mut out: Vec<char> = Vec::new();
        self.render_into(&mut out);
        string_from_chars(&out)
    }

    /// Appends this expression's rendering to `out`.
    fn render_into(&self, out: &mut Vec<char>)
        ensures
            final(out)@ == old(out)@ + expr_text(expr_view(*self)),
        decreases *self,
    {
        match self {
            Expression::Binary { left, operator, right } => {
                out.push('(');
                push_str_chars(out, operator.lexeme.as_str());
                out.push(' ');
                left.render_into(out);
                out.push(' ');
                right.render_into(out);
                out.push(')');
                proof {
                    assert(out@ =~= old(out)@ + expr_text(expr_view(*self)));
                }
            },
            Expression::Grouping(inner) => {
                push_str_chars(out, "(group ");
                inner.render_into(out);
                out.push(')');
                proof {
                    assert(out@ =~= old(out)@ + expr_text(expr_view(*self)));
                }
            },
            Expression::Unary { operator, right } => {
                out.push('(');
                push_str_chars(out, operator.lexeme.as_str());
                out.push(' ');
                right.render_into(out);
                out.push(')');
                proof {
                    assert(out@ =~= old(out)@ + expr_text(expr_view(*self)));
                }
            },
            Expression::Literal(l) => {
                let text = l.render();
                push_str_chars(out, text.as_str());
                proof {
                    assert(out@ =~= old(out)@ + expr_text(expr_view(*self)));
                }
            },
        }
    }
}

impl ScannerError {
    /// This error in the form `[line <N>] Error: <message>`.
    pub fn render(&self) -> (s: std::string::String)
        ensures
            s@ == scan_error_text(self@),
    {
        let mut out: Vec<char> = Vec::new();
        push_str_chars(&mut out, "[line ");
        push_dec_chars(&mut out, self.line);
        push_str_chars(&mut out, "] Error: ");
        push_str_chars(&mut out, self.message.as_str());
        proof {
            assert(out@ =~= scan_error_text(self@));
        }
        string_from_chars(&out)
    }
}

impl ParserError {
    /// This error in the form `[line <N>] Error: <message>`, at the
    /// offending token's line.
    pub fn render(&self) -> (s: std::string::String)
        ensures
            s@ == parse_error_text(self@),
    {
        let mut out: Vec<char> = Vec::new();
        push_str_chars(&mut out, "[line ");
        push_dec_chars(&mut out, self.token.line);
        push_str_chars(&mut out, "] Error: ");
        push_str_chars(&mut out, self.message.as_str());
        proof {
            assert(out@ =~= parse_error_text(self@));
        }
        string_from_chars(&out)
    }
}

} // verus!
