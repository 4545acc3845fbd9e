use rlox::{Object, Scanner, Token, TokenType};

#[test]
fn scanner_initial_lexemes() {
    let mut scanner = Scanner::new("(){},.-+*;".to_string());

    let tokens = scanner.scan_tokens();

    assert_eq!(
        tokens,
        vec![
            Token::new(TokenType::LEFT_PAREN, "(".to_string(), None, 0),
            Token::new(TokenType::RIGHT_PAREN, ")".to_string(), None, 0),
            Token::new(TokenType::LEFT_BRACE, "{".to_string(), None, 0),
            Token::new(TokenType::RIGHT_BRACE, "}".to_string(), None, 0),
            Token::new(TokenType::COMMA, ",".to_string(), None, 0),
            Token::new(TokenType::DOT, ".".to_string(), None, 0),
            Token::new(TokenType::MINUS, "-".to_string(), None, 0),
            Token::new(TokenType::PLUS, "+".to_string(), None, 0),
            Token::new(TokenType::STAR, "*".to_string(), None, 0),
            Token::new(TokenType::SEMICOLON, ";".to_string(), None, 0),
            Token::new(TokenType::EOF, "".to_string(), None, 0),
        ]
    );
}

#[test]
fn scanner_test_operators() {
    let mut scanner = Scanner::new("! != = == < <= > >=".to_string());

    let tokens = scanner.scan_tokens();

    assert_eq!(
        tokens,
        vec![
            Token::new(TokenType::BANG, "!".to_string(), None, 0),
            Token::new(TokenType::BANG_EQUAL, "!=".to_string(), None, 0),
            Token::new(TokenType::EQUAL, "=".to_string(), None, 0),
            Token::new(TokenType::EQUAL_EQUAL, "==".to_string(), None, 0),
            Token::new(TokenType::LESS, "<".to_string(), None, 0),
            Token::new(TokenType::LESS_EQUAL, "<=".to_string(), None, 0),
            Token::new(TokenType::GREATER, ">".to_string(), None, 0),
            Token::new(TokenType::GREATER_EQUAL, ">=".to_string(), None, 0),
            Token::new(TokenType::EOF, "".to_string(), None, 0),
        ]
    );
}

#[test]
fn scanner_test_comments() {
    let mut scanner = Scanner::new("// stufff herer comments".to_string());

    let tokens = scanner.scan_tokens();

    assert_eq!(tokens, vec![Token::new(TokenType::EOF, "".to_string(), None, 0)]);
}

#[test]
fn scanner_test_slash() {
    let mut scanner = Scanner::new("/".to_string());

    let tokens = scanner.scan_tokens();

    assert_eq!(
        tokens,
        vec![
            Token::new(TokenType::SLASH, "/".to_string(), None, 0),
            Token::new(TokenType::EOF, "".to_string(), None, 0),
        ]
    );
}

#[test]
fn scanner_test_line_increment() {
    let mut scanner = Scanner::new("/\n*\n".to_string());

    let tokens = scanner.scan_tokens();

    assert_eq!(
        tokens,
        vec![
            Token::new(TokenType::SLASH, "/".to_string(), None, 0),
            Token::new(TokenType::STAR, "*".to_string(), None, 1),
            Token::new(TokenType::EOF, "".to_string(), None, 2),
        ]
    );
}

#[test]
fn scanner_test_string_literal() {
    let mut scanner = Scanner::new("\"this is a string\"".to_string());

    let tokens = scanner.scan_tokens();

    assert_eq!(
        tokens,
        vec![
            Token::new(
                TokenType::STRING,
                "\"this is a string\"".to_string(),
                Some(Object::Str("this is a string".to_string())),
                0
            ),
            Token::new(TokenType::EOF, "".to_string(), None, 0),
        ]
    );
}

#[test]
fn scanner_test_whole_number() {
    let mut scanner = Scanner::new("123".to_string());

    let tokens = scanner.scan_tokens();

    assert_eq!(
        tokens,
        vec![
            Token::new(
                TokenType::NUMBER,
                "123".to_string(),
                Some(Object::Num("123".to_string())),
                0
            ),
            Token::new(TokenType::EOF, "".to_string(), None, 0),
        ]
    );
}

#[test]
fn scanner_test_decimal_number() {
    let mut scanner = Scanner::new("123.456".to_string());

    let tokens = scanner.scan_tokens();

    assert_eq!(
        tokens,
        vec![
            Token::new(
                TokenType::NUMBER,
                "123.456".to_string(),
                Some(Object::Num("123.456".to_string())),
                0
            ),
            Token::new(TokenType::EOF, "".to_string(), None, 0),
        ]
    );
}

#[test]
fn scanner_test_keywords() {
    let mut scanner = Scanner::new("or and class".to_string());

    let tokens = scanner.scan_tokens();

    assert_eq!(
        tokens,
        vec![
            Token::new(TokenType::OR, "or".to_string(), None, 0),
            Token::new(TokenType::AND, "and".to_string(), None, 0),
            Token::new(TokenType::CLASS, "class".to_string(), None, 0),
            Token::new(TokenType::EOF, "".to_string(), None, 0),
        ]
    );
}

#[test]
fn scanner_trailing_dot_not_absorbed() {
    let mut scanner = Scanner::new("123.".to_string());

    let tokens = scanner.scan_tokens();

    assert_eq!(
        tokens,
        vec![
            Token::new(
                TokenType::NUMBER,
                "123".to_string(),
                Some(Object::Num("123".to_string())),
                0
            ),
            Token::new(TokenType::DOT, ".".to_string(), None, 0),
            Token::new(TokenType::EOF, "".to_string(), None, 0),
        ]
    );
}

#[test]
fn scanner_all_keywords() {
    let source = "and class else false for fun if nil or print return super this true var while";
    let mut scanner = Scanner::new(source.to_string());

    let tokens = scanner.scan_tokens();
    let kinds: Vec<TokenType> = tokens.iter().map(|t| *t.token_type()).collect();

    assert_eq!(
        kinds,
        vec![
            TokenType::AND,
            TokenType::CLASS,
            TokenType::ELSE,
            TokenType::FALSE,
            TokenType::FOR,
            TokenType::FUN,
            TokenType::IF,
            TokenType::NIL,
            TokenType::OR,
            TokenType::PRINT,
            TokenType::RETURN,
            TokenType::SUPER,
            TokenType::THIS,
            TokenType::TRUE,
            TokenType::VAR,
            TokenType::WHILE,
            TokenType::EOF,
        ]
    );
}

#[test]
fn scanner_identifier_and_unicode() {
    let mut scanner = Scanner::new("orchid _x h\u{e9}llo".to_string());

    let tokens = scanner.scan_tokens();

    assert_eq!(
        tokens,
        vec![
            Token::new(TokenType::IDENTIFIER, "orchid".to_string(), None, 0),
            Token::new(TokenType::IDENTIFIER, "_x".to_string(), None, 0),
            Token::new(TokenType::IDENTIFIER, "h\u{e9}llo".to_string(), None, 0),
            Token::new(TokenType::EOF, "".to_string(), None, 0),
        ]
    );
}

#[test]
fn scanner_unexpected_character_diagnostic() {
    let mut scanner = Scanner::new("@".to_string());

    let tokens = scanner.scan_tokens();

    assert_eq!(tokens, vec![Token::new(TokenType::EOF, "".to_string(), None, 0)]);
    let diags = scanner.diagnostics();
    assert_eq!(diags.len(), 1);
    assert_eq!(diags[0].line, 0);
    assert_eq!(diags[0].message, "Unexpected character".to_string());
    assert_eq!(diags[0].render(), "[line 0] Error : Unexpected character".to_string());
}

#[test]
fn scanner_unterminated_string_diagnostic() {
    let mut scanner = Scanner::new("\"abc".to_string());

    let tokens = scanner.scan_tokens();

    assert_eq!(tokens, vec![Token::new(TokenType::EOF, "".to_string(), None, 0)]);
    let diags = scanner.diagnostics();
    assert_eq!(diags.len(), 1);
    assert_eq!(diags[0].line, 0);
    assert_eq!(diags[0].message, "Unterminated string".to_string());
}

#[test]
fn scanner_multiline_string_lines() {
    let mut scanner = Scanner::new("\"a\nb\" *".to_string());

    let tokens = scanner.scan_tokens();

    assert_eq!(
        tokens,
        vec![
            Token::new(
                TokenType::STRING,
                "\"a\nb\"".to_string(),
                Some(Object::Str("a\nb".to_string())),
                0
            ),
            Token::new(TokenType::STAR, "*".to_string(), None, 1),
            Token::new(TokenType::EOF, "".to_string(), None, 1),
        ]
    );
}

#[test]
fn scanner_comment_to_end_of_line() {
    let mut scanner = Scanner::new("// note\n* // tail".to_string());

    let tokens = scanner.scan_tokens();

    assert_eq!(
        tokens,
        vec![
            Token::new(TokenType::STAR, "*".to_string(), None, 1),
            Token::new(TokenType::EOF, "".to_string(), None, 1),
        ]
    );
    assert_eq!(scanner.diagnostics().len(), 0);
}
