use rlox::{AstPrinter, Parser, Scanner, TokenType};

fn parse_and_print(source: &str) -> String {
    let mut scanner = Scanner::new(source.to_string());
    let tokens = scanner.scan_tokens();
    let mut parser = Parser::new(tokens);
    let expr = parser.parse().expect("expected the source to parse");
    AstPrinter::new().print(&expr)
}

#[test]
fn parser_left_associativity() {
    assert_eq!(parse_and_print("1 - 2 - 3"), "(- (- 1 2) 3)");
}

#[test]
fn parser_unary_minus() {
    assert_eq!(parse_and_print("-1"), "(- 1)");
}

#[test]
fn parser_precedence() {
    assert_eq!(parse_and_print("2 + 3 * 4"), "(+ 2 (* 3 4))");
}

#[test]
fn parser_comparison_and_equality() {
    assert_eq!(parse_and_print("1 < 2 == true"), "(== (< 1 2) true)");
    assert_eq!(parse_and_print("!false != 3 >= 4"), "(!= (! false) (>= 3 4))");
}

#[test]
fn parser_literals() {
    assert_eq!(parse_and_print("nil"), "nil");
    assert_eq!(parse_and_print("true"), "true");
    assert_eq!(parse_and_print("false"), "false");
    assert_eq!(parse_and_print("\"hi\""), "hi");
}

#[test]
fn parser_grouping() {
    assert_eq!(parse_and_print("(1 + 2) * 3"), "(* (group (+ 1 2)) 3)");
}

#[test]
fn parser_unclosed_group_error() {
    let mut scanner = Scanner::new("(1 + 2".to_string());
    let tokens = scanner.scan_tokens();
    let mut parser = Parser::new(tokens);

    let err = parser.parse().expect_err("expected a syntax error");
    assert_eq!(err.message, "Expect ')' after expression.".to_string());
    assert_eq!(*err.token.token_type(), TokenType::EOF);
    assert_eq!(
        rlox::token_error(&err.token, err.message.as_str()),
        "[line 0] Error  at end: Expect ')' after expression.".to_string()
    );
}

#[test]
fn parser_expect_expression_error() {
    let mut scanner = Scanner::new("+ 1".to_string());
    let tokens = scanner.scan_tokens();
    let mut parser = Parser::new(tokens);

    let err = parser.parse().expect_err("expected a syntax error");
    assert_eq!(err.message, "Expect expression.".to_string());
    assert_eq!(*err.token.token_type(), TokenType::PLUS);
    assert_eq!(err.token.lexeme().as_str(), "+");
    assert_eq!(
        rlox::token_error(&err.token, err.message.as_str()),
        "[line 0] Error  at '+': Expect expression.".to_string()
    );
}

#[test]
fn parser_synchronize_skips_to_statement_boundary() {
    let mut scanner = Scanner::new("+ ; 37".to_string());
    let tokens = scanner.scan_tokens();
    let mut parser = Parser::new(tokens);

    assert!(parser.parse().is_err());
    parser.synchronize();
    let expr = parser.parse().expect("expected the recovered tail to parse");
    assert_eq!(AstPrinter::new().print(&expr), "37");
}

#[test]
fn parser_end_to_end_example() {
    let mut scanner = Scanner::new("-123 * (45.67)".to_string());
    let tokens = scanner.scan_tokens();
    let kinds: Vec<TokenType> = tokens.iter().map(|t| *t.token_type()).collect();
    assert_eq!(
        kinds,
        vec![
            TokenType::MINUS,
            TokenType::NUMBER,
            TokenType::STAR,
            TokenType::LEFT_PAREN,
            TokenType::NUMBER,
            TokenType::RIGHT_PAREN,
            TokenType::EOF,
        ]
    );

    let mut parser = Parser::new(tokens);
    let expr = parser.parse().expect("expected the example to parse");
    assert_eq!(AstPrinter::new().print(&expr), "(* (- 123) (group 45.67))");
}

#[test]
fn parser_empty_input_error() {
    let mut scanner = Scanner::new("".to_string());
    let tokens = scanner.scan_tokens();
    assert_eq!(tokens.len(), 1);
    assert_eq!(*tokens[0].token_type(), TokenType::EOF);

    let mut parser = Parser::new(tokens);
    let err = parser.parse().expect_err("expected a syntax error on empty input");
    assert_eq!(err.message, "Expect expression.".to_string());
    assert_eq!(*err.token.token_type(), TokenType::EOF);
}
