//! Mathematical model of the scanner: a step function that says which token
//! or error one lexeme yields and where scanning resumes, and the full scan
//! function obtained by iterating it to the end of the input.

use vstd::prelude::*;

use crate::token::{LiteralModel, TokenModel, TokenType, token_wf};

verus! {

/// An ASCII decimal digit.
pub open spec fn is_digit(c: char) -> bool {
    '0' <= c && c <= '9'
}

/// The end of the maximal run of digits starting at `i`: the first index at
/// or after `i` that is out of range or holds a non-digit.
pub open spec fn digits_end(src: Seq<char>, i: int) -> int
    decreases src.len() - i,
{
    if 0 <= i && i < src.len() && is_digit(src[i]) {
        digits_end(src, i + 1)
    } else {
        i
    }
}

pub proof fn lemma_digits_end(src: Seq<char>, i: int)
    requires
        0 <= i <= src.len(),
    ensures
        i <= digits_end(src, i) <= src.len(),
        forall|k: int| i <= k < digits_end(src, i) ==> is_digit(src[k]),
        digits_end(src, i) < src.len() ==> !is_digit(src[digits_end(src, i)]),
    decreases src.len() - i,
{
    if i < src.len() && is_digit(src[i]) {
        lemma_digits_end(src, i + 1);
    }
}

/// The index of the first `'"'` at or after `i`, or the input length if the
/// string is never closed.
pub open spec fn close_quote(src: Seq<char>, i: int) -> int
    decreases src.len() - i,
{
    if 0 <= i && i < src.len() {
        if src[i] == '"' {
            i
        } else {
            close_quote(src, i + 1)
        }
    } else {
        src.len() as int
    }
}

pub proof fn lemma_close_quote(src: Seq<char>, i: int)
    requires
        0 <= i <= src.len(),
    ensures
        i <= close_quote(src, i) <= src.len(),
        forall|k: int| i <= k < close_quote(src, i) ==> src[k] != '"',
        close_quote(src, i) < src.len() ==> src[close_quote(src, i)] == '"',
    decreases src.len() - i,
{
    if i < src.len() && src[i] != '"' {
        lemma_close_quote(src, i + 1);
    }
}

/// The index of the first newline at or after `i`, or the input length.
pub open spec fn line_end(src: Seq<char>, i: int) -> int
    decreases src.len() - i,
{
    if 0 <= i && i < src.len() {
        if src[i] == '\n' {
            i
        } else {
            line_end(src, i + 1)
        }
    } else {
        src.len() as int
    }
}

pub proof fn lemma_line_end(src: Seq<char>, i: int)
    requires
        0 <= i <= src.len(),
    ensures
        i <= line_end(src, i) <= src.len(),
        forall|k: int| i <= k < line_end(src, i) ==> src[k] != '\n',
        line_end(src, i) < src.len() ==> src[line_end(src, i)] == '\n',
    decreases src.len() - i,
{
    if i < src.len() && src[i] != '\n' {
        lemma_line_end(src, i + 1);
    }
}

/// How many newlines `src` holds in the index range `[i, j)`.
pub open spec fn newline_count(src: Seq<char>, i: int, j: int) -> int
    decreases j - i,
{
    if i < j {
        (if src[i] == '\n' {
            1int
        } else {
            0int
        }) + newline_count(src, i + 1, j)
    } else {
        0
    }
}

pub proof fn lemma_newline_count_nonneg(src: Seq<char>, i: int, j: int)
    ensures
        0 <= newline_count(src, i, j) <= (if i <= j {
            j - i
        } else {
            0
        }),
    decreases j - i,
{
    if i < j {
        lemma_newline_count_nonneg(src, i + 1, j);
    }
}

/// Counting one more character on the right.
pub proof fn lemma_newline_count_snoc(src: Seq<char>, i: int, j: int)
    requires
        i <= j,
    ensures
        newline_count(src, i, j + 1) == newline_count(src, i, j) + (if src[j] == '\n' {
            1int
        } else {
            0int
        }),
    decreases j - i,
{
    if i < j {
        lemma_newline_count_snoc(src, i + 1, j);
    } else {
        assert(newline_count(src, i, j) == 0);
        assert(newline_count(src, j + 1, j + 1) == 0);
        assert(newline_count(src, i, j + 1) == (if src[j] == '\n' {
            1int
        } else {
            0int
        }) + newline_count(src, j + 1, j + 1));
    }
}

/// Ghost model of a lexical error record.
pub ghost struct ScanErrorModel {
    pub message: Seq<char>,
    pub line: int,
    pub column: int,
}

/// The message recorded for a character no token category accepts.
pub open spec fn unexpected_char_message(c: char) -> Seq<char> {
    "Unexpected character: "@ + seq![c]
}

/// The message recorded for a string literal that reaches end of input.
pub open spec fn unterminated_string_message() -> Seq<char> {
    "Unterminated string."@
}

/// What scanning one lexeme yields: the tokens and errors it produces (each
/// at most one) and the position, line and column where scanning resumes.
pub ghost struct ScanStep {
    pub toks: Seq<TokenModel>,
    pub errs: Seq<ScanErrorModel>,
    pub next: int,
    pub next_line: int,
    pub next_column: int,
}

/// A one-character token at position `i`.
pub open spec fn single_char_step(
    src: Seq<char>,
    i: int,
    kind: TokenType,
    line: int,
    col: int,
) -> ScanStep {
    ScanStep {
        toks: seq![
            TokenModel {
                kind,
                lexeme: src.subrange(i, i + 1),
                literal: Option::None,
                line,
                column: col,
            },
        ],
        errs: seq![],
        next: i + 1,
        next_line: line,
        next_column: col + 1,
    }
}

/// A two-character operator when the next character is `'='`, otherwise its
/// one-character prefix: the greedy longest-match rule.
pub open spec fn pair_or_single_step(
    src: Seq<char>,
    i: int,
    pair: TokenType,
    single: TokenType,
    line: int,
    col: int,
) -> ScanStep {
    if i + 1 < src.len() && src[i + 1] == '=' {
        ScanStep {
            toks: seq![
                TokenModel {
                    kind: pair,
                    lexeme: src.subrange(i, i + 2),
                    literal: Option::None,
                    line,
                    column: col,
                },
            ],
            errs: seq![],
            next: i + 2,
            next_line: line,
            next_column: col + 2,
        }
    } else {
        single_char_step(src, i, single, line, col)
    }
}

/// A string literal beginning at the `'"'` at position `i`: on success the
/// lexeme is the full quoted text and the literal value the text strictly
/// between the quotes; reaching end of input first is a lexical error and
/// yields no token.
pub open spec fn string_step(src: Seq<char>, i: int, line: int, col: int) -> ScanStep {
    let j = close_quote(src, i + 1);
    if j < src.len() {
        ScanStep {
            toks: seq![
                TokenModel {
                    kind: TokenType::String,
                    lexeme: src.subrange(i, j + 1),
                    literal: Option::Some(LiteralModel::Str(src.subrange(i + 1, j))),
                    line,
                    column: col,
                },
            ],
            errs: seq![],
            next: j + 1,
            next_line: line + newline_count(src, i + 1, j),
            next_column: col + (j + 1 - i),
        }
    } else {
        ScanStep {
            toks: seq![],
            errs: seq![
                ScanErrorModel {
                    message: unterminated_string_message(),
                    line: line + newline_count(src, i + 1, src.len() as int),
                    column: col + (src.len() - i),
                },
            ],
            next: src.len() as int,
            next_line: line + newline_count(src, i + 1, src.len() as int),
            next_column: col + (src.len() - i),
        }
    }
}

/// A number literal beginning at the digit at position `i`: a maximal digit
/// run, then a fractional part only when a dot is directly followed by a
/// digit.  The literal value is the exact numeral text.
pub open spec fn number_step(src: Seq<char>, i: int, line: int, col: int) -> ScanStep {
    let d = digits_end(src, i + 1);
    let end = if d < src.len() && src[d] == '.' && d + 1 < src.len() && is_digit(src[d + 1]) {
        digits_end(src, d + 1)
    } else {
        d
    };
    ScanStep {
        toks: seq![
            TokenModel {
                kind: TokenType::Number,
                lexeme: src.subrange(i, end),
                literal: Option::Some(LiteralModel::Number(src.subrange(i, end))),
                line,
                column: col,
            },
        ],
        errs: seq![],
        next: end,
        next_line: line,
        next_column: col + (end - i),
    }
}

/// A step that only moves past position `i`, yielding nothing.
pub open spec fn skip_step(i: int, line: int, col: int) -> ScanStep {
    ScanStep { toks: seq![], errs: seq![], next: i + 1, next_line: line, next_column: col + 1 }
}

/// One step of the scanner at position `i` of `src` (meaningful for
/// `0 <= i < src.len()`): the per-character dispatch.
pub open spec fn sp_step(src: Seq<char>, i: int, line: int, col: int) -> ScanStep {
    let c = src[i];
    if c == '(' {
        single_char_step(src, i, TokenType::LeftParen, line, col)
    } else if c == ')' {
        single_char_step(src, i, TokenType::RightParen, line, col)
    } else if c == '{' {
        single_char_step(src, i, TokenType::LeftBrace, line, col)
    } else if c == '}' {
        single_char_step(src, i, TokenType::RightBrace, line, col)
    } else if c == ',' {
        single_char_step(src, i, TokenType::Comma, line, col)
    } else if c == '.' {
        single_char_step(src, i, TokenType::Dot, line, col)
    } else if c == '-' {
        single_char_step(src, i, TokenType::Minus, line, col)
    } else if c == '+' {
        single_char_step(src, i, TokenType::Plus, line, col)
    } else if c == ';' {
        single_char_step(src, i, TokenType::Semicolon, line, col)
    } else if c == '*' {
        single_char_step(src, i, TokenType::Star, line, col)
    } else if c == '!' {
        pair_or_single_step(src, i, TokenType::BangEqual, TokenType::Bang, line, col)
    } else if c == '=' {
        pair_or_single_step(src, i, TokenType::EqualEqual, TokenType::Equal, line, col)
    } else if c == '<' {
        pair_or_single_step(src, i, TokenType::LessEqual, TokenType::Less, line, col)
    } else if c == '>' {
        pair_or_single_step(src, i, TokenType::GreaterEqual, TokenType::Greater, line, col)
    } else if c == '/' {
        if i + 1 < src.len() && src[i + 1] == '/' {
            let j = line_end(src, i + 2);
            ScanStep {
                toks: seq![],
                errs: seq![],
                next: j,
                next_line: line,
                next_column: col + (j - i),
            }
        } else {
            single_char_step(src, i, TokenType::Slash, line, col)
        }
    } else if c == ' ' || c == '\r' || c == '\t' {
        skip_step(i, line, col)
    } else if c == '\n' {
        ScanStep { toks: seq![], errs: seq![], next: i + 1, next_line: line + 1, next_column: 1 }
    } else if c == '"' {
        string_step(src, i, line, col)
    } else if is_digit(c) {
        number_step(src, i, line, col)
    } else {
        ScanStep {
            toks: seq![],
            errs: seq![ScanErrorModel { message: unexpected_char_message(c), line, column: col }],
            next: i + 1,
            next_line: line,
            next_column: col + 1,
        }
    }
}

/// Every step moves strictly forward and stays within the input.
pub proof fn lemma_step_progress(src: Seq<char>, i: int, line: int, col: int)
    requires
        0 <= i < src.len(),
    ensures
        i < sp_step(src, i, line, col).next <= src.len(),
{
    let c = src[i];
    if c == '/' && i + 1 < src.len() && src[i + 1] == '/' {
        lemma_line_end(src, i + 2);
    } else if c == '"' {
        lemma_close_quote(src, i + 1);
    } else if !(c == '(' || c == ')' || c == '{' || c == '}' || c == ',' || c == '.' || c == '-'
        || c == '+' || c == ';' || c == '*' || c == '!' || c == '=' || c == '<' || c == '>' || c
        == '/' || c == ' ' || c == '\r' || c == '\t' || c == '\n') && is_digit(c) {
        lemma_digits_end(src, i + 1);
        let d = digits_end(src, i + 1);
        if d < src.len() && src[d] == '.' && d + 1 < src.len() && is_digit(src[d + 1]) {
            lemma_digits_end(src, d + 1);
        }
    }
}

/// The end-of-input token: empty lexeme, no literal.
pub open spec fn eof_model(line: int, col: int) -> TokenModel {
    TokenModel {
        kind: TokenType::Eof,
        lexeme: Seq::empty(),
        literal: Option::None,
        line,
        column: col,
    }
}

/// What a whole scan yields: the tokens and the errors, each in the order
/// encountered.
pub ghost struct ScanOutput {
    pub tokens: Seq<TokenModel>,
    pub errors: Seq<ScanErrorModel>,
}

/// The full scan of `src` from position `i` at the given line and column:
/// steps are iterated left to right, and the end-of-input token is appended
/// unconditionally.
pub open spec fn sp_scan(src: Seq<char>, i: int, line: int, col: int) -> ScanOutput
    decreases src.len() - i,
{
    if 0 <= i && i < src.len() {
        let st = sp_step(src, i, line, col);
        if i < st.next && st.next <= src.len() {
            let rest = sp_scan(src, st.next, st.next_line, st.next_column);
            ScanOutput { tokens: st.toks + rest.tokens, errors: st.errs + rest.errors }
        } else {
            // never reached: every step moves strictly forward
            ScanOutput { tokens: st.toks, errors: st.errs }
        }
    } else {
        ScanOutput { tokens: seq![eof_model(line, col)], errors: seq![] }
    }
}

/// A scan always ends with exactly one end-of-input token: the token list is
/// never empty, and its last element is the `Eof` token with an empty lexeme
/// and no literal, while no earlier token is an `Eof` token.
pub proof fn lemma_scan_ends_eof(src: Seq<char>, i: int, line: int, col: int)
    ensures
        sp_scan(src, i, line, col).tokens.len() >= 1,
        sp_scan(src, i, line, col).tokens.last().kind == TokenType::Eof,
        sp_scan(src, i, line, col).tokens.last().lexeme == Seq::<char>::empty(),
        sp_scan(src, i, line, col).tokens.last().literal is None,
        forall|k: int|
            0 <= k < sp_scan(src, i, line, col).tokens.len() - 1 ==> sp_scan(
                src,
                i,
                line,
                col,
            ).tokens[k].kind != TokenType::Eof,
    decreases src.len() - i,
{
    if 0 <= i && i < src.len() {
        lemma_step_progress(src, i, line, col);
        let st = sp_step(src, i, line, col);
        lemma_scan_ends_eof(src, st.next, st.next_line, st.next_column);
    }
}

/// Every token a scan yields is well formed.
pub proof fn lemma_scan_tokens_wf(src: Seq<char>, i: int, line: int, col: int)
    ensures
        forall|k: int|
            0 <= k < sp_scan(src, i, line, col).tokens.len() ==> token_wf(
                #[trigger] sp_scan(src, i, line, col).tokens[k],
            ),
    decreases src.len() - i,
{
    if 0 <= i && i < src.len() {
        lemma_step_progress(src, i, line, col);
        let st = sp_step(src, i, line, col);
        lemma_scan_tokens_wf(src, st.next, st.next_line, st.next_column);
        assert(forall|k: int| 0 <= k < st.toks.len() ==> token_wf(#[trigger] st.toks[k]));
        assert(forall|k: int|
            0 <= k < sp_scan(src, i, line, col).tokens.len() ==> sp_scan(
                src,
                i,
                line,
                col,
            ).tokens[k] == (st.toks + sp_scan(src, st.next, st.next_line, st.next_column).tokens)[k]);
    }
}

/// The two-character kind for each operator head character.
pub open spec fn pair_kind(c: char) -> TokenType {
    if c == '!' {
        TokenType::BangEqual
    } else if c == '=' {
        TokenType::EqualEqual
    } else if c == '<' {
        TokenType::LessEqual
    } else {
        TokenType::GreaterEqual
    }
}

/// The one-character kind for each operator head character.
pub open spec fn single_kind(c: char) -> TokenType {
    if c == '!' {
        TokenType::Bang
    } else if c == '=' {
        TokenType::Equal
    } else if c == '<' {
        TokenType::Less
    } else {
        TokenType::Greater
    }
}

/// Greedy longest match: for every two-character operator family, a source
/// beginning with `!`, `=`, `<` or `>` yields the two-character operator as
/// its first token exactly when the next character is `=`, and the
/// one-character form otherwise, whatever follows.
pub proof fn lemma_longest_match(src: Seq<char>, line: int, col: int)
    requires
        src.len() >= 1,
        src[0] == '!' || src[0] == '=' || src[0] == '<' || src[0] == '>',
    ensures
        sp_scan(src, 0, line, col).tokens[0].kind == (if src.len() >= 2 && src[1] == '=' {
            pair_kind(src[0])
        } else {
            single_kind(src[0])
        }),
        sp_scan(src, 0, line, col).tokens[0].lexeme == (if src.len() >= 2 && src[1] == '=' {
            src.subrange(0, 2)
        } else {
            src.subrange(0, 1)
        }),
{
    lemma_step_progress(src, 0, line, col);
    let st = sp_step(src, 0, line, col);
    assert(sp_scan(src, 0, line, col).tokens == st.toks + sp_scan(
        src,
        st.next,
        st.next_line,
        st.next_column,
    ).tokens);
    assert(sp_scan(src, 0, line, col).tokens[0] == st.toks[0]);
}

} // verus!
