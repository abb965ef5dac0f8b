//! The scanner: converts source text into a sequence of tokens, recording
//! every illegal character or malformed literal without aborting the scan.
//! Its behaviour is specified exactly by the model in `scan_model`.

use vstd::prelude::*;
use vstd::string::StringExecFns;

use crate::scan_model::{
    close_quote, digits_end, is_digit, line_end, newline_count, number_step, sp_scan, sp_step,
    string_step, unexpected_char_message, ScanErrorModel,
};
use crate::text::{string_chars, string_from_chars};
use crate::token::{tokens_view, Literal, Token, TokenModel, TokenType};

verus! {

/// A lexical error: a human-readable message and the source position where
/// it was detected.
#[derive(Debug, Clone, Eq, PartialEq)]
pub struct ScannerError {
    pub message: std::string::String,
    pub line: usize,
    pub column: usize,
}

impl View for ScannerError {
    type V = ScanErrorModel;

    open spec fn view(&self) -> ScanErrorModel {
        ScanErrorModel {
            message: self.message@,
            line: self.line as int,
            column: self.column as int,
        }
    }
}

/// The view of a whole error sequence.
pub open spec fn errors_view(es: Seq<ScannerError>) -> Seq<ScanErrorModel> {
    es.map_values(|e: ScannerError| e@)
}

/// Whether `c` is an ASCII decimal digit.
fn is_digit_exec(c: char) -> (b: bool)
    ensures
        b == is_digit(c),
{
    '0' <= c && c <= '9'
}

/// The scanner state: a cursor into the source characters, the start of the
/// lexeme being recognized, the 1-based line and column of the next
/// character, and the tokens and errors accumulated so far.
#[derive(Debug, Clone)]
pub struct Scanner {
    pub source: Vec<char>,
    pub tokens: Vec<Token>,
    pub start: usize,
    pub current: usize,
    pub line: usize,
    pub column: usize,
    pub errors: Vec<ScannerError>,
}

impl Scanner {
    /// The state is well formed: the cursor is within the source, and line
    /// and column have room to grow by the characters that are left.
    pub open spec fn wf(self) -> bool {
        &&& self.source@.len() < usize::MAX
        &&& self.current <= self.source@.len()
        &&& 1 <= self.line
        &&& 1 <= self.column
        &&& self.line + (self.source@.len() - self.current) <= usize::MAX
        &&& self.column + (self.source@.len() - self.current) <= usize::MAX
    }

    pub fn new(source: std::string::String) -> (s: Scanner)
        requires
            source@.len() < usize::MAX,
        ensures
            s.source@ == source@,
            s.tokens@ == Seq::<Token>::empty(),
            s.errors@ == Seq::<ScannerError>::empty(),
            s.start == 0,
            s.current == 0,
            s.line == 1,
            s.column == 1,
            s.wf(),
    {
        Scanner {
            source: string_chars(source.as_str()),
            tokens: Vec::new(),
            start: 0,
            current: 0,
            line: 1,
            column: 1,
            errors: Vec::new(),
        }
    }

    /// Scans the whole remaining source: appends exactly the tokens and
    /// errors of the model, and always ends with the end-of-input token,
    /// which has an empty lexeme and no literal.
    pub fn scan_tokens(&mut self)
        requires
            old(self).wf(),
        ensures
            final(self).wf(),
            final(self).source == old(self).source,
            final(self).current == final(self).source@.len(),
            tokens_view(final(self).tokens@) == tokens_view(old(self).tokens@) + sp_scan(
                old(self).source@,
                old(self).current as int,
                old(self).line as int,
                old(self).column as int,
            ).tokens,
            errors_view(final(self).errors@) == errors_view(old(self).errors@) + sp_scan(
                old(self).source@,
                old(self).current as int,
                old(self).line as int,
                old(self).column as int,
            ).errors,
            final(self).tokens@.len() >= 1,
            final(self).tokens@.last()@.kind == TokenType::Eof,
            final(self).tokens@.last()@.lexeme == Seq::<char>::empty(),
            final(self).tokens@.last()@.literal is None,
    {
        let ghost src = self.source@;
        let ghost i0 = self.current as int;
        let ghost l0 = self.line as int;
        let ghost c0 = self.column as int;
        while !self.is_at_end()
            invariant
                self.wf(),
                self.source == old(self).source,
                self.source@ == src,
                tokens_view(self.tokens@) + sp_scan(
                    src,
                    self.current as int,
                    self.line as int,
                    self.column as int,
                ).tokens == tokens_view(old(self).tokens@) + sp_scan(src, i0, l0, c0).tokens,
                errors_view(self.errors@) + sp_scan(
                    src,
                    self.current as int,
                    self.line as int,
                    self.column as int,
                ).errors == errors_view(old(self).errors@) + sp_scan(src, i0, l0, c0).errors,
            decreases self.source@.len() - self.current,
        {
            let ghost pre = *self;
            proof {
                crate::scan_model::lemma_step_progress(
                    src,
                    self.current as int,
                    self.line as int,
                    self.column as int,
                );
            }
            self.start = self.current;
            self.scan_token();
            proof {
                let st = sp_step(src, pre.current as int, pre.line as int, pre.column as int);
                assert(sp_scan(src, pre.current as int, pre.line as int, pre.column as int).tokens
                    =~= st.toks + sp_scan(
                    src,
                    st.next,
                    st.next_line,
                    st.next_column,
                ).tokens);
                assert(sp_scan(src, pre.current as int, pre.line as int, pre.column as int).errors
                    =~= st.errs + sp_scan(
                    src,
                    st.next,
                    st.next_line,
                    st.next_column,
                ).errors);
                assert(tokens_view(self.tokens@) + sp_scan(
                    src,
                    self.current as int,
                    self.line as int,
                    self.column as int,
                ).tokens =~= tokens_view(old(self).tokens@) + sp_scan(src, i0, l0, c0).tokens);
                assert(errors_view(self.errors@) + sp_scan(
                    src,
                    self.current as int,
                    self.line as int,
                    self.column as int,
                ).errors =~= errors_view(old(self).errors@) + sp_scan(src, i0, l0, c0).errors);
            }
        }
        let eof = Token::new(TokenType::Eof, std::string::String::new(), Option::None, self.line, self.column);
        self.tokens.push(eof);
        proof {
            assert(tokens_view(self.tokens@) =~= tokens_view(old(self).tokens@) + sp_scan(
                src,
                i0,
                l0,
                c0,
            ).tokens);
            assert(errors_view(self.errors@) =~= errors_view(old(self).errors@) + sp_scan(
                src,
                i0,
                l0,
                c0,
            ).errors);
        }
    }

    fn is_at_end(&self) -> (b: bool)
        ensures
            b == (self.current >= self.source@.len()),
    {
        self.current >= self.source.len()
    }

    /// Scans one lexeme at the cursor: performs exactly one step of the
    /// model.
    fn scan_token(&mut self)
        requires
            old(self).wf(),
            old(self).current < old(self).source@.len(),
            old(self).start == old(self).current,
        ensures
            final(self).wf(),
            final(self).source == old(self).source,
            final(self).current == sp_step(
                old(self).source@,
                old(self).current as int,
                old(self).line as int,
                old(self).column as int,
            ).next,
            final(self).line == sp_step(
                old(self).source@,
                old(self).current as int,
                old(self).line as int,
                old(self).column as int,
            ).next_line,
            final(self).column == sp_step(
                old(self).source@,
                old(self).current as int,
                old(self).line as int,
                old(self).column as int,
            ).next_column,
            tokens_view(final(self).tokens@) == tokens_view(old(self).tokens@) + sp_step(
                old(self).source@,
                old(self).current as int,
                old(self).line as int,
                old(self).column as int,
            ).toks,
            errors_view(final(self).errors@) == errors_view(old(self).errors@) + sp_step(
                old(self).source@,
                old(self).current as int,
                old(self).line as int,
                old(self).column as int,
            ).errs,
    {
        let tline = self.line;
        let tcol = self.column;
        let current_char = self.advance();
        match current_char {
            '(' => self.add_token(TokenType::LeftParen, Option::None, tline, tcol),
            ')' => self.add_token(TokenType::RightParen, Option::None, tline, tcol),
            '{' => self.add_token(TokenType::LeftBrace, Option::None, tline, tcol),
            '}' => self.add_token(TokenType::RightBrace, Option::None, tline, tcol),
            ',' => self.add_token(TokenType::Comma, Option::None, tline, tcol),
            '.' => self.add_token(TokenType::Dot, Option::None, tline, tcol),
            '-' => self.add_token(TokenType::Minus, Option::None, tline, tcol),
            '+' => self.add_token(TokenType::Plus, Option::None, tline, tcol),
            ';' => self.add_token(TokenType::Semicolon, Option::None, tline, tcol),
            '*' => self.add_token(TokenType::Star, Option::None, tline, tcol),
            '!' => {
                if self.advance_peek('=') {
                    self.add_token(TokenType::BangEqual, Option::None, tline, tcol);
                } else {
                    self.add_token(TokenType::Bang, Option::None, tline, tcol);
                }
            },
            '=' => {
                if self.advance_peek('=') {
                    self.add_token(TokenType::EqualEqual, Option::None, tline, tcol);
                } else {
                    self.add_token(TokenType::Equal, Option::None, tline, tcol);
                }
            },
            '<' => {
                if self.advance_peek('=') {
                    self.add_token(TokenType::LessEqual, Option::None, tline, tcol);
                } else {
                    self.add_token(TokenType::Less, Option::None, tline, tcol);
                }
            },
            '>' => {
                if self.advance_peek('=') {
                    self.add_token(TokenType::GreaterEqual, Option::None, tline, tcol);
                } else {
                    self.add_token(TokenType::Greater, Option::None, tline, tcol);
                }
            },
            '/' => {
                if self.advance_peek('/') {
                    self.skip_comment();
                } else {
                    self.add_token(TokenType::Slash, Option::None, tline, tcol);
                }
            },
            ' ' | '\r' | '\t' => {
                // whitespace produces nothing
            },
            '\n' => {
                self.line = self.line + 1;
                self.column = 1;
            },
            '"' => {
                self.construct_string(tline, tcol);
            },
            _ => {
                if is_digit_exec(current_char) {
                    self.construct_number(tline, tcol);
                } else {
                    let mut chars = string_chars("Unexpected character: ");
                    chars.push(current_char);
                    proof {
                        assert(chars@ =~= "Unexpected character: "@ + seq![current_char]);
                    }
                    let message = string_from_chars(&chars);
                    self.errors.push(ScannerError { message, line: tline, column: tcol });
                    proof {
                        assert(errors_view(self.errors@) =~= errors_view(old(self).errors@)
                            + seq![
                            ScanErrorModel {
                                message: unexpected_char_message(current_char),
                                line: tline as int,
                                column: tcol as int,
                            },
                        ]);
                    }
                }
            },
        }
    }

    /// Consumes the rest of the line after a `//`: a comment yields nothing.
    fn skip_comment(&mut self)
        requires
            old(self).wf(),
        ensures
            final(self).wf(),
            final(self).source == old(self).source,
            final(self).tokens == old(self).tokens,
            final(self).errors == old(self).errors,
            final(self).start == old(self).start,
            final(self).line == old(self).line,
            final(self).current == line_end(old(self).source@, old(self).current as int),
            final(self).column == old(self).column + (line_end(
                old(self).source@,
                old(self).current as int,
            ) - old(self).current),
    {
        let ghost src = self.source@;
        let ghost c0 = self.current as int;
        proof {
            crate::scan_model::lemma_line_end(src, c0);
        }
        while self.peek() != '\n' && !self.is_at_end()
            invariant
                self.wf(),
                self.source == old(self).source,
                self.source@ == src,
                self.tokens == old(self).tokens,
                self.errors == old(self).errors,
                self.start == old(self).start,
                self.line == old(self).line,
                c0 <= self.current <= line_end(src, c0),
                line_end(src, self.current as int) == line_end(src, c0),
                self.column == old(self).column + (self.current - c0),
            decreases self.source@.len() - self.current,
        {
            proof {
                crate::scan_model::lemma_line_end(src, self.current as int);
            }
            self.advance();
        }
        proof {
            crate::scan_model::lemma_line_end(src, self.current as int);
        }
    }

    fn advance(&mut self) -> (c: char)
        requires
            old(self).wf(),
            old(self).current < old(self).source@.len(),
        ensures
            final(self).wf(),
            final(self).source == old(self).source,
            final(self).tokens == old(self).tokens,
            final(self).errors == old(self).errors,
            final(self).start == old(self).start,
            final(self).line == old(self).line,
            final(self).current == old(self).current + 1,
            final(self).column == old(self).column + 1,
            c == old(self).source@[old(self).current as int],
    {
        let current_char = self.source[self.current];
        self.current = self.current + 1;
        self.column = self.column + 1;
        current_char
    }

    /// Consumes the next character only if it is exactly `expected`.
    fn advance_peek(&mut self, expected: char) -> (matched: bool)
        requires
            old(self).wf(),
        ensures
            final(self).wf(),
            final(self).source == old(self).source,
            final(self).tokens == old(self).tokens,
            final(self).errors == old(self).errors,
            final(self).start == old(self).start,
            final(self).line == old(self).line,
            matched == (old(self).current < old(self).source@.len() && old(self).source@[old(
                self,
            ).current as int] == expected),
            matched ==> final(self).current == old(self).current + 1 && final(self).column == old(
                self,
            ).column + 1,
            !matched ==> final(self).current == old(self).current && final(self).column == old(
                self,
            ).column,
    {
        if self.is_at_end() {
            return false;
        }
        let next_char = self.source[self.current];
        if next_char != expected {
            return false;
        }
        self.current = self.current + 1;
        self.column = self.column + 1;
        true
    }

    fn peek(&self) -> (c: char)
        requires
            self.wf(),
        ensures
            c == (if self.current < self.source@.len() {
                self.source@[self.current as int]
            } else {
                '\0'
            }),
    {
        if self.is_at_end() {
            return '\0';
        }
        self.source[self.current]
    }

    fn peek_next(&self) -> (c: char)
        requires
            self.wf(),
            self.current < self.source@.len(),
        ensures
            c == (if self.current + 1 < self.source@.len() {
                self.source@[self.current + 1]
            } else {
                '\0'
            }),
    {
        if self.current >= self.source.len() - 1 {
            return '\0';
        }
        self.source[self.current + 1]
    }

    /// The characters of `source` in the index range `[from, to)`, as a
    /// string.
    fn copy_range(&self, from: usize, to: usize) -> (s: std::string::String)
        requires
            from <= to <= self.source@.len(),
        ensures
            s@ == self.source@.subrange(from as int, to as int),
    {
        let mut chars: Vec<char> = Vec::new();
        let mut k = from;
        while k < to
            invariant
                from <= k <= to <= self.source@.len(),
                chars@ == self.source@.subrange(from as int, k as int),
            decreases to - k,
        {
            chars.push(self.source[k]);
            proof {
                assert(chars@ =~= self.source@.subrange(from as int, k + 1));
            }
            k = k + 1;
        }
        string_from_chars(&chars)
    }

    /// Consumes a string literal whose opening quote stands at `start`; the
    /// cursor is just past it.  On success the token's literal value is the
    /// text strictly between the quotes; an unterminated string yields an
    /// error and no token.
    fn construct_string(&mut self, tline: usize, tcol: usize)
        requires
            old(self).wf(),
            old(self).current == old(self).start + 1,
            old(self).start < old(self).source@.len(),
            old(self).source@[old(self).start as int] == '"',
            old(self).line == tline,
            old(self).column == tcol + 1,
        ensures
            final(self).wf(),
            final(self).source == old(self).source,
            final(self).current == string_step(
                old(self).source@,
                old(self).start as int,
                tline as int,
                tcol as int,
            ).next,
            final(self).line == string_step(
                old(self).source@,
                old(self).start as int,
                tline as int,
                tcol as int,
            ).next_line,
            final(self).column == string_step(
                old(self).source@,
                old(self).start as int,
                tline as int,
                tcol as int,
            ).next_column,
            tokens_view(final(self).tokens@) == tokens_view(old(self).tokens@) + string_step(
                old(self).source@,
                old(self).start as int,
                tline as int,
                tcol as int,
            ).toks,
            errors_view(final(self).errors@) == errors_view(old(self).errors@) + string_step(
                old(self).source@,
                old(self).start as int,
                tline as int,
                tcol as int,
            ).errs,
    {
        let ghost src = self.source@;
        let ghost c0 = self.current as int;
        proof {
            crate::scan_model::lemma_close_quote(src, c0);
        }
        while self.peek() != '"' && !self.is_at_end()
            invariant
                self.wf(),
                self.source == old(self).source,
                self.source@ == src,
                self.tokens == old(self).tokens,
                self.errors == old(self).errors,
                self.start == old(self).start,
                c0 <= self.current <= close_quote(src, c0),
                close_quote(src, self.current as int) == close_quote(src, c0),
                self.line == old(self).line + newline_count(src, c0, self.current as int),
                self.column == old(self).column + (self.current - c0),
            decreases self.source@.len() - self.current,
        {
            proof {
                crate::scan_model::lemma_close_quote(src, self.current as int);
                crate::scan_model::lemma_newline_count_snoc(src, c0, self.current as int);
                crate::scan_model::lemma_newline_count_nonneg(src, c0, self.current as int);
            }
            let c = self.advance();
            if c == '\n' {
                self.line = self.line + 1;
            }
        }
        proof {
            crate::scan_model::lemma_close_quote(src, self.current as int);
            crate::scan_model::lemma_newline_count_nonneg(src, c0, self.current as int);
        }

        if self.is_at_end() {
            let message = std::string::String::from_str("Unterminated string.");
            self.errors.push(ScannerError { message, line: self.line, column: self.column });
            proof {
                assert(errors_view(self.errors@) =~= errors_view(old(self).errors@) + string_step(
                    src,
                    old(self).start as int,
                    tline as int,
                    tcol as int,
                ).errs);
            }
            return;
        }

        // the closing quote
        self.advance();
        let value = self.copy_range(self.start + 1, self.current - 1);
        self.add_token(TokenType::String, Option::Some(Literal::String(value)), tline, tcol);
    }

    /// Consumes a number literal whose first digit stands at `start`; the
    /// cursor is just past it.  The literal value is the exact numeral text.
    fn construct_number(&mut self, tline: usize, tcol: usize)
        requires
            old(self).wf(),
            old(self).current == old(self).start + 1,
            old(self).start < old(self).source@.len(),
            is_digit(old(self).source@[old(self).start as int]),
            old(self).line == tline,
            old(self).column == tcol + 1,
        ensures
            final(self).wf(),
            final(self).source == old(self).source,
            final(self).current == number_step(
                old(self).source@,
                old(self).start as int,
                tline as int,
                tcol as int,
            ).next,
            final(self).line == number_step(
                old(self).source@,
                old(self).start as int,
                tline as int,
                tcol as int,
            ).next_line,
            final(self).column == number_step(
                old(self).source@,
                old(self).start as int,
                tline as int,
                tcol as int,
            ).next_column,
            tokens_view(final(self).tokens@) == tokens_view(old(self).tokens@) + number_step(
                old(self).source@,
                old(self).start as int,
                tline as int,
                tcol as int,
            ).toks,
            errors_view(final(self).errors@) == errors_view(old(self).errors@) + number_step(
                old(self).source@,
                old(self).start as int,
                tline as int,
                tcol as int,
            ).errs,
    {
        let ghost src = self.source@;
        let ghost c0 = self.current as int;
        proof {
            crate::scan_model::lemma_digits_end(src, c0);
        }
        while is_digit_exec(self.peek())
            invariant
                self.wf(),
                self.source == old(self).source,
                self.source@ == src,
                self.tokens == old(self).tokens,
                self.errors == old(self).errors,
                self.start == old(self).start,
                self.line == old(self).line,
                c0 <= self.current <= digits_end(src, c0),
                digits_end(src, self.current as int) == digits_end(src, c0),
                self.column == old(self).column + (self.current - c0),
            decreases self.source@.len() - self.current,
        {
            proof {
                crate::scan_model::lemma_digits_end(src, self.current as int);
            }
            self.advance();
        }
        proof {
            crate::scan_model::lemma_digits_end(src, self.current as int);
        }
        let ghost d = digits_end(src, c0);

        // a fractional part only when the dot is directly followed by a digit
        if self.peek() == '.' {
            if is_digit_exec(self.peek_next()) {
                // consume the "."
                self.advance();
                let ghost f0 = self.current as int;
                proof {
                    crate::scan_model::lemma_digits_end(src, f0);
                }
                while is_digit_exec(self.peek())
                    invariant
                        self.wf(),
                        self.source == old(self).source,
                        self.source@ == src,
                        self.tokens == old(self).tokens,
                        self.errors == old(self).errors,
                        self.start == old(self).start,
                        self.line == old(self).line,
                        f0 <= self.current <= digits_end(src, f0),
                        digits_end(src, self.current as int) == digits_end(src, f0),
                        self.column == old(self).column + (self.current - c0),
                        f0 == d + 1,
                    decreases self.source@.len() - self.current,
                {
                    proof {
                        crate::scan_model::lemma_digits_end(src, self.current as int);
                    }
                    self.advance();
                }
                proof {
                    crate::scan_model::lemma_digits_end(src, self.current as int);
                }
            }
        }

        let text = self.copy_range(self.start, self.current);
        self.add_token(TokenType::Number, Option::Some(Literal::Number(text)), tline, tcol);
    }

    /// Appends a token whose lexeme is the source text between `start` and
    /// the cursor, at the recorded start position.
    fn add_token(&mut self, token_type: TokenType, literal: Option<Literal>, tline: usize, tcol: usize)
        requires
            old(self).start <= old(self).current <= old(self).source@.len(),
        ensures
            final(self).source == old(self).source,
            final(self).errors == old(self).errors,
            final(self).start == old(self).start,
            final(self).current == old(self).current,
            final(self).line == old(self).line,
            final(self).column == old(self).column,
            tokens_view(final(self).tokens@) == tokens_view(old(self).tokens@) + seq![
                TokenModel {
                    kind: token_type,
                    lexeme: old(self).source@.subrange(
                        old(self).start as int,
                        old(self).current as int,
                    ),
                    literal: match literal {
                        Option::Some(l) => Option::Some(l@),
                        Option::None => Option::None,
                    },
                    line: tline as int,
                    column: tcol as int,
                },
            ],
    {
        let text = self.copy_range(self.start, self.current);
        let token = Token::new(token_type, text, literal, tline, tcol);
        self.tokens.push(token);
        proof {
            assert(tokens_view(self.tokens@) =~= tokens_view(old(self).tokens@) + seq![
                TokenModel {
                    kind: token_type,
                    lexeme: old(self).source@.subrange(
                        old(self).start as int,
                        old(self).current as int,
                    ),
                    literal: match literal {
                        Option::Some(l) => Option::Some(l@),
                        Option::None => Option::None,
                    },
                    line: tline as int,
                    column: tcol as int,
                },
            ]);
        }
    }
}

} // verus!
