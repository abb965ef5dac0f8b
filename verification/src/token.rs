//! Tokens produced by the scanner: the closed set of lexical categories, the
//! literal values a token may carry, and the token record itself, together
//! with the ghost models that the scanner and parser contracts speak of.

use vstd::prelude::*;

verus! {

/// The closed set of lexical categories.
#[derive(Debug, Clone, Copy, PartialEq, Eq, Structural)]
pub enum TokenType {
    LeftParen,
    RightParen,
    LeftBrace,
    RightBrace,
    Comma,
    Dot,
    Minus,
    Plus,
    Semicolon,
    Star,
    Bang,
    BangEqual,
    Equal,
    EqualEqual,
    Greater,
    GreaterEqual,
    Less,
    LessEqual,
    Slash,
    String,
    Number,
    True,
    False,
    Nil,
    Eof,
}

/// A literal value carried by a literal-bearing token.
///
/// A `Number` literal holds the exact decimal numeral matched in the source
/// (a run of digits with an optional single fractional part), kept as text so
/// that its value is stated precisely; no exponent or sign ever occurs in it.
#[derive(Debug)]
pub enum Literal {
    Identifier(std::string::String),
    String(std::string::String),
    Number(std::string::String),
    Boolean(bool),
    Nil,
}

/// Ghost model of a literal: the same shape over sequences of characters.
pub ghost enum LiteralModel {
    Identifier(Seq<char>),
    Str(Seq<char>),
    Number(Seq<char>),
    Boolean(bool),
    Nil,
}

impl View for Literal {
    type V = LiteralModel;

    open spec fn view(&self) -> LiteralModel {
        match self {
            Literal::Identifier(s) => LiteralModel::Identifier(s@),
            Literal::String(s) => LiteralModel::Str(s@),
            Literal::Number(s) => LiteralModel::Number(s@),
            Literal::Boolean(b) => LiteralModel::Boolean(*b),
            Literal::Nil => LiteralModel::Nil,
        }
    }
}

/// An immutable token record: its category, the exact source substring
/// matched, the literal value for literal-bearing categories, and the
/// 1-based source position of the token's start.
#[derive(Debug)]
pub struct Token {
    pub token_type: TokenType,
    pub lexeme: std::string::String,
    pub literal: Option<Literal>,
    pub line: usize,
    pub column: usize,
}

/// Ghost model of a token.
pub ghost struct TokenModel {
    pub kind: TokenType,
    pub lexeme: Seq<char>,
    pub literal: Option<LiteralModel>,
    pub line: int,
    pub column: int,
}

impl View for Token {
    type V = TokenModel;

    open spec fn view(&self) -> TokenModel {
        TokenModel {
            kind: self.token_type,
            lexeme: self.lexeme@,
            literal: match self.literal {
                Option::Some(l) => Option::Some(l@),
                Option::None => Option::None,
            },
            line: self.line as int,
            column: self.column as int,
        }
    }
}

impl Clone for Literal {
    fn clone(&self) -> (res: Literal)
        ensures
            res == *self,
    {
        match self {
            Literal::Identifier(s) => Literal::Identifier(s.clone()),
            Literal::String(s) => Literal::String(s.clone()),
            Literal::Number(s) => Literal::Number(s.clone()),
            Literal::Boolean(b) => Literal::Boolean(*b),
            Literal::Nil => Literal::Nil,
        }
    }
}

impl Clone for Token {
    fn clone(&self) -> (res: Token)
        ensures
            res == *self,
    {
        Token {
            token_type: self.token_type,
            lexeme: self.lexeme.clone(),
            literal: match &self.literal {
                Option::Some(l) => Option::Some(l.clone()),
                Option::None => Option::None,
            },
            line: self.line,
            column: self.column,
        }
    }
}

impl Token {
    pub fn new(
        token_type: TokenType,
        lexeme: std::string::String,
        literal: Option<Literal>,
        line: usize,
        column: usize,
    ) -> (t: Token)
        ensures
            t@ == (TokenModel {
                kind: token_type,
                lexeme: lexeme@,
                literal: match literal {
                    Option::Some(l) => Option::Some(l@),
                    Option::None => Option::None,
                },
                line: line as int,
                column: column as int,
            }),
    {
        Token { token_type, lexeme, literal, line, column }
    }
}

/// The view of a whole token sequence.
pub open spec fn tokens_view(ts: Seq<Token>) -> Seq<TokenModel> {
    ts.map_values(|t: Token| t@)
}

/// A token is well formed when its literal field agrees with its category:
/// literal-bearing categories carry the matching literal variant, all other
/// categories carry none.
pub open spec fn token_wf(t: TokenModel) -> bool {
    match t.kind {
        TokenType::String => t.literal matches Option::Some(LiteralModel::Str(_)),
        TokenType::Number => t.literal matches Option::Some(LiteralModel::Number(_)),
        TokenType::True => t.literal == Option::Some(LiteralModel::Boolean(true)),
        TokenType::False => t.literal == Option::Some(LiteralModel::Boolean(false)),
        TokenType::Nil => t.literal == Option::Some(LiteralModel::Nil),
        _ => t.literal is None,
    }
}

} // verus!
