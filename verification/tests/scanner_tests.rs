use lox_front::scanner::Scanner;
use lox_front::token::{Literal, TokenType};

fn scan(source: &str) -> Scanner {
    let mut scanner = Scanner::new(source.to_string());
    scanner.scan_tokens();
    scanner
}

#[test]
fn test_scanner_codecrafter_testcase() {
    let source = "(()".to_string();
    let mut scanner = Scanner::new(source);

    scanner.scan_tokens();
    assert_eq!(scanner.tokens.len(), 4);
    assert_eq!(scanner.tokens[0].token_type, TokenType::LeftParen);
    assert_eq!(scanner.tokens[1].token_type, TokenType::LeftParen);
    assert_eq!(scanner.tokens[2].token_type, TokenType::RightParen);
    assert_eq!(scanner.tokens[3].token_type, TokenType::Eof);
}

#[test]
fn test_scan_tokens() {
    let source = "(){},.-+;*".to_string();
    let mut scanner = Scanner::new(source);
    scanner.scan_tokens();

    assert_eq!(scanner.tokens.len(), 11);
    assert_eq!(scanner.tokens[0].token_type, TokenType::LeftParen);
    assert_eq!(scanner.tokens[1].token_type, TokenType::RightParen);
    assert_eq!(scanner.tokens[2].token_type, TokenType::LeftBrace);
    assert_eq!(scanner.tokens[3].token_type, TokenType::RightBrace);
    assert_eq!(scanner.tokens[4].token_type, TokenType::Comma);
    assert_eq!(scanner.tokens[5].token_type, TokenType::Dot);
    assert_eq!(scanner.tokens[6].token_type, TokenType::Minus);
    assert_eq!(scanner.tokens[7].token_type, TokenType::Plus);
    assert_eq!(scanner.tokens[8].token_type, TokenType::Semicolon);
    assert_eq!(scanner.tokens[9].token_type, TokenType::Star);
    assert_eq!(scanner.tokens[10].token_type, TokenType::Eof);
}

#[test]
fn test_scan_tokens_with_whitespace() {
    // every letter of "hello" is an unexpected character and yields an
    // error, not a token; the parens and the end-of-input marker remain
    let source = "hello () ".to_string();
    let mut scanner = Scanner::new(source);
    scanner.scan_tokens();

    assert_eq!(scanner.tokens.len(), 3);
    assert_eq!(scanner.tokens[0].token_type, TokenType::LeftParen);
    assert_eq!(scanner.tokens[1].token_type, TokenType::RightParen);
    assert_eq!(scanner.tokens[2].token_type, TokenType::Eof);
    assert_eq!(scanner.errors.len(), 5);
}

#[test]
fn empty_source_yields_only_eof() {
    let scanner = scan("");
    assert_eq!(scanner.tokens.len(), 1);
    assert_eq!(scanner.tokens[0].token_type, TokenType::Eof);
    assert_eq!(scanner.tokens[0].lexeme, "");
    assert!(scanner.tokens[0].literal.is_none());
    assert_eq!(scanner.errors.len(), 0);
}

#[test]
fn longest_match_two_char_operators() {
    let cases = [
        ("!=", TokenType::BangEqual),
        ("==", TokenType::EqualEqual),
        ("<=", TokenType::LessEqual),
        (">=", TokenType::GreaterEqual),
    ];
    for (src, kind) in cases {
        let scanner = scan(src);
        assert_eq!(scanner.tokens.len(), 2);
        assert_eq!(scanner.tokens[0].token_type, kind);
        assert_eq!(scanner.tokens[0].lexeme, src);
        assert_eq!(scanner.tokens[1].token_type, TokenType::Eof);
        assert_eq!(scanner.errors.len(), 0);
    }
    let singles = [
        ("!", TokenType::Bang),
        ("=", TokenType::Equal),
        ("<", TokenType::Less),
        (">", TokenType::Greater),
    ];
    for (src, kind) in singles {
        let scanner = scan(src);
        assert_eq!(scanner.tokens.len(), 2);
        assert_eq!(scanner.tokens[0].token_type, kind);
        assert_eq!(scanner.tokens[0].lexeme, src);
        assert_eq!(scanner.tokens[1].token_type, TokenType::Eof);
        assert_eq!(scanner.errors.len(), 0);
    }
}

#[test]
fn comment_is_discarded() {
    let scanner = scan("// comment\n1");
    assert_eq!(scanner.tokens.len(), 2);
    assert_eq!(scanner.tokens[0].token_type, TokenType::Number);
    match &scanner.tokens[0].literal {
        Some(Literal::Number(text)) => assert_eq!(text, "1"),
        other => panic!("expected a number literal, got {:?}", other),
    }
    assert_eq!(scanner.tokens[0].line, 2);
    assert_eq!(scanner.tokens[1].token_type, TokenType::Eof);
    assert_eq!(scanner.errors.len(), 0);
}

#[test]
fn lone_slash_is_division() {
    let scanner = scan("/");
    assert_eq!(scanner.tokens.len(), 2);
    assert_eq!(scanner.tokens[0].token_type, TokenType::Slash);
    assert_eq!(scanner.errors.len(), 0);
}

#[test]
fn unterminated_string_is_one_error_and_no_token() {
    let scanner = scan("\"abc");
    assert_eq!(scanner.tokens.len(), 1);
    assert_eq!(scanner.tokens[0].token_type, TokenType::Eof);
    assert_eq!(scanner.errors.len(), 1);
    assert!(scanner.errors[0].message.contains("Unterminated string."));
}

#[test]
fn string_literal_value_excludes_quotes() {
    let scanner = scan("\"ab\"");
    assert_eq!(scanner.tokens.len(), 2);
    assert_eq!(scanner.tokens[0].token_type, TokenType::String);
    assert_eq!(scanner.tokens[0].lexeme, "\"ab\"");
    match &scanner.tokens[0].literal {
        Some(Literal::String(value)) => assert_eq!(value, "ab"),
        other => panic!("expected a string literal, got {:?}", other),
    }
    assert_eq!(scanner.errors.len(), 0);
}

#[test]
fn string_with_newline_counts_lines() {
    let scanner = scan("\"a\nb\"@");
    assert_eq!(scanner.tokens.len(), 2);
    assert_eq!(scanner.tokens[0].token_type, TokenType::String);
    assert_eq!(scanner.tokens[0].line, 1);
    // the unexpected character after the string is reported on line 2
    assert_eq!(scanner.errors.len(), 1);
    assert_eq!(scanner.errors[0].line, 2);
}

#[test]
fn number_with_fraction_and_trailing_dot() {
    let scanner = scan("123.45");
    assert_eq!(scanner.tokens.len(), 2);
    assert_eq!(scanner.tokens[0].token_type, TokenType::Number);
    match &scanner.tokens[0].literal {
        Some(Literal::Number(text)) => {
            assert_eq!(text, "123.45");
            let value: f64 = text.parse().unwrap();
            assert_eq!(value, 123.45);
        },
        other => panic!("expected a number literal, got {:?}", other),
    }

    let scanner = scan("123.");
    assert_eq!(scanner.tokens.len(), 3);
    assert_eq!(scanner.tokens[0].token_type, TokenType::Number);
    match &scanner.tokens[0].literal {
        Some(Literal::Number(text)) => assert_eq!(text, "123"),
        other => panic!("expected a number literal, got {:?}", other),
    }
    assert_eq!(scanner.tokens[1].token_type, TokenType::Dot);
    assert_eq!(scanner.tokens[2].token_type, TokenType::Eof);
    assert_eq!(scanner.errors.len(), 0);
}

#[test]
fn unexpected_character_error_message_and_render() {
    let scanner = scan("@");
    assert_eq!(scanner.tokens.len(), 1);
    assert_eq!(scanner.errors.len(), 1);
    assert_eq!(scanner.errors[0].message, "Unexpected character: @");
    assert_eq!(scanner.errors[0].line, 1);
    assert_eq!(scanner.errors[0].render(), "[line 1] Error: Unexpected character: @");
}

#[test]
fn token_render_forms() {
    let scanner = scan("(");
    assert_eq!(scanner.tokens[0].render(), "LEFT_PAREN ( null");
    assert_eq!(scanner.tokens[1].render(), "EOF  null");

    let scanner = scan("\"hi\" 42");
    assert_eq!(scanner.tokens[0].render(), "STRING \"hi\" hi");
    assert_eq!(scanner.tokens[1].render(), "NUMBER 42 42");
}

#[test]
fn error_render_uses_decimal_line_numbers() {
    let newlines = "\n".repeat(122);
    let scanner = scan(&(newlines + "@"));
    assert_eq!(scanner.errors.len(), 1);
    assert_eq!(scanner.errors[0].line, 123);
    assert_eq!(scanner.errors[0].render(), "[line 123] Error: Unexpected character: @");
}
