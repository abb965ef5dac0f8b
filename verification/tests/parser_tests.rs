use lox_front::expression::Expression;
use lox_front::parser::{Parser, ParserError};
use lox_front::scanner::Scanner;
use lox_front::token::{Literal, Token, TokenType};

fn parse_source(source: &str) -> (Vec<Expression>, Parser) {
    let mut scanner = Scanner::new(source.to_string());
    scanner.scan_tokens();
    assert_eq!(scanner.errors.len(), 0);
    let mut parser = Parser::new(scanner.tokens);
    let expressions = parser.parse();
    (expressions, parser)
}

#[test]
fn subtraction_is_left_associative() {
    let (expressions, parser) = parse_source("1-2-3");
    assert_eq!(parser.errors.len(), 0);
    assert_eq!(expressions.len(), 1);
    assert_eq!(expressions[0].render(), "(- (- 1 2) 3)");
}

#[test]
fn grouping_renders_as_group() {
    let (expressions, parser) = parse_source("(1+2)");
    assert_eq!(parser.errors.len(), 0);
    assert_eq!(expressions.len(), 1);
    assert_eq!(expressions[0].render(), "(group (+ 1 2))");
}

#[test]
fn missing_close_paren_is_one_error() {
    let mut scanner = Scanner::new("(1+2".to_string());
    scanner.scan_tokens();
    assert_eq!(scanner.errors.len(), 0);
    let mut parser = Parser::new(scanner.tokens);
    parser.parse();
    assert_eq!(parser.errors.len(), 1);
    assert!(parser.errors[0].message.contains("Expect ')' after expression."));
}

#[test]
fn precedence_of_factors_over_terms() {
    let (expressions, parser) = parse_source("1+2*3");
    assert_eq!(parser.errors.len(), 0);
    assert_eq!(expressions.len(), 1);
    assert_eq!(expressions[0].render(), "(+ 1 (* 2 3))");
}

#[test]
fn comparison_and_equality_levels() {
    let (expressions, parser) = parse_source("1<2==3>=4");
    assert_eq!(parser.errors.len(), 0);
    assert_eq!(expressions.len(), 1);
    assert_eq!(expressions[0].render(), "(== (< 1 2) (>= 3 4))");
}

#[test]
fn unary_operators_nest() {
    let (expressions, parser) = parse_source("--1");
    assert_eq!(parser.errors.len(), 0);
    assert_eq!(expressions.len(), 1);
    assert_eq!(expressions[0].render(), "(- (- 1))");
}

#[test]
fn string_literal_parses_to_its_value() {
    let (expressions, parser) = parse_source("\"hi\"");
    assert_eq!(parser.errors.len(), 0);
    assert_eq!(expressions.len(), 1);
    assert_eq!(expressions[0].render(), "hi");
}

#[test]
fn round_trip_valid_expression() {
    // a clean scan followed by a parse of one whole expression: no syntax
    // errors and exactly one tree
    let (expressions, parser) = parse_source("(1+2)*3-4/2<=10");
    assert_eq!(parser.errors.len(), 0);
    assert_eq!(expressions.len(), 1);
    assert_eq!(expressions[0].render(), "(<= (- (* (group (+ 1 2)) 3) (/ 4 2)) 10)");
}

#[test]
fn failed_primary_yields_placeholder_and_empty_message() {
    let mut scanner = Scanner::new("+".to_string());
    scanner.scan_tokens();
    let mut parser = Parser::new(scanner.tokens);
    let expressions = parser.parse();
    assert_eq!(expressions.len(), 1);
    assert_eq!(expressions[0].render(), "nil");
    assert_eq!(parser.errors.len(), 1);
    assert_eq!(parser.errors[0].message, "");
}

#[test]
fn parser_error_render_uses_token_line() {
    let token = Token::new(TokenType::Plus, "+".to_string(), None, 7, 3);
    let error = ParserError::new("boom".to_string(), token);
    assert_eq!(error.render(), "[line 7] Error: boom");
}

#[test]
fn hand_built_expression_renders() {
    let one = Expression::new_literal(Literal::Number("1".to_string()));
    let two = Expression::new_literal(Literal::Number("2".to_string()));
    let plus = Token::new(TokenType::Plus, "+".to_string(), None, 1, 2);
    let sum = Expression::new_binary(Box::new(one), plus, Box::new(two));
    let grouped = Expression::new_grouping(sum);
    let minus = Token::new(TokenType::Minus, "-".to_string(), None, 1, 1);
    let negated = Expression::new_unary(minus, Box::new(grouped));
    assert_eq!(negated.render(), "(- (group (+ 1 2)))");
}

#[test]
fn literal_rendering() {
    assert_eq!(Expression::new_literal(Literal::Boolean(true)).render(), "true");
    assert_eq!(Expression::new_literal(Literal::Boolean(false)).render(), "false");
    assert_eq!(Expression::new_literal(Literal::Nil).render(), "nil");
    assert_eq!(Expression::new_literal(Literal::Identifier("x".to_string())).render(), "null");
}

#[test]
fn parse_never_consumes_the_eof_token() {
    let mut scanner = Scanner::new("1 2 3".to_string());
    scanner.scan_tokens();
    let token_count = scanner.tokens.len();
    let mut parser = Parser::new(scanner.tokens);
    let expressions = parser.parse();
    assert_eq!(expressions.len(), 3);
    assert_eq!(parser.current, token_count - 1);
    assert_eq!(parser.tokens[parser.current].token_type, TokenType::Eof);
}
