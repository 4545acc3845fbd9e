use rlox::{Accept, AstPrinter, Expr, Token, TokenType};

#[test]
fn test_ast_print() {
    let ast_printer = AstPrinter::new();
    let expr = Expr::Binary(
        Box::new(Expr::Unary(
            Token::new(TokenType::MINUS, "-".to_string(), None, 1),
            Box::new(Expr::Literal("123".to_string())),
        )),
        Token::new(TokenType::STAR, "*".to_string(), None, 1),
        Box::new(Expr::Grouping(Box::new(Expr::Literal("45.67".to_string())))),
    );

    assert_eq!(ast_printer.print(&expr), "(* (- 123) (group 45.67))");
}

#[test]
fn printer_empty_literal_prints_nil() {
    let printer = AstPrinter::new();
    let expr = Expr::Literal("".to_string());

    assert_eq!(printer.print(&expr), "nil");
}

#[test]
fn printer_accept_dispatches_to_printer() {
    let printer = AstPrinter::new();
    let expr = Expr::Grouping(Box::new(Expr::Literal("7".to_string())));

    assert_eq!(expr.accept(&printer), "(group 7)");
    assert_eq!(expr.accept(&printer), printer.print(&expr));
}

#[test]
fn printer_is_pure() {
    let printer = AstPrinter::new();
    let expr = Expr::Unary(
        Token::new(TokenType::BANG, "!".to_string(), None, 0),
        Box::new(Expr::Literal("true".to_string())),
    );

    let first = printer.print(&expr);
    let second = printer.print(&expr);
    assert_eq!(first, second);
    assert_eq!(first, "(! true)");
}
