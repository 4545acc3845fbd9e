//! Front end of a small expression language: a lexical scanner, a
//! recursive-descent expression parser, a closed abstract syntax tree with a
//! visitor protocol, and a printer that renders a tree as a fully
//! parenthesized S-expression.
//!
//! Diagnostics are returned as values in the form
//! `[line N] Error <location>: <message>`; callers decide how to surface them.

pub mod ast_printer;
pub mod chunk;
pub mod expr;
pub mod object;
pub mod parser;
pub mod runner;
pub mod scan_model;
pub mod scanner;
pub mod token;
pub mod token_type;

pub use ast_printer::AstPrinter;
pub use chunk::Chunk;
pub use chunk::OpCode;
pub use chunk::grow_capacity;
pub use expr::Accept;
pub use expr::Expr;
pub use expr::Visitor;
pub use object::Object;
pub use parser::ParseError;
pub use parser::Parser;
pub use runner::RunOutput;
pub use runner::Runner;
pub use scanner::Diagnostic;
pub use scanner::Scanner;
pub use token::Token;
pub use token_type::TokenType;

use crate::token::TokenV;
use vstd::prelude::*;

verus! {

/// The decimal digit character for one digit value below ten.
pub open spec fn digit_char(d: nat) -> char {
    if d == 0 {
        '0'
    } else if d == 1 {
        '1'
    } else if d == 2 {
        '2'
    } else if d == 3 {
        '3'
    } else if d == 4 {
        '4'
    } else if d == 5 {
        '5'
    } else if d == 6 {
        '6'
    } else if d == 7 {
        '7'
    } else if d == 8 {
        '8'
    } else {
        '9'
    }
}

/// The usual decimal rendering of a number: most significant digit first,
/// no leading zeros except for the number zero itself.
pub open spec fn dec_digits(n: nat) -> Seq<char>
    decreases n,
{
    if n < 10 {
        seq![digit_char(n)]
    } else {
        dec_digits(n / 10).push(digit_char(n % 10))
    }
}

/// Appends the decimal rendering of `n` to `out`.
fn push_decimal(n: u64, out: &mut String)
    ensures
        final(out)@ == old(out)@ + dec_digits(n as nat),
    decreases n,
{
    proof {
        reveal_strlit("0");
        reveal_strlit("1");
        reveal_strlit("2");
        reveal_strlit("3");
        reveal_strlit("4");
        reveal_strlit("5");
        reveal_strlit("6");
        reveal_strlit("7");
        reveal_strlit("8");
        reveal_strlit("9");
    }
    if n >= 10 {
        push_decimal(n / 10, out);
    }
    let d: u64 = n % 10;
    match d {
        0 => out.append("0"),
        1 => out.append("1"),
        2 => out.append("2"),
        3 => out.append("3"),
        4 => out.append("4"),
        5 => out.append("5"),
        6 => out.append("6"),
        7 => out.append("7"),
        8 => out.append("8"),
        _ => out.append("9"),
    }
    proof {
        assert(final(out)@ =~= old(out)@ + dec_digits(n as nat));
    }
}

/// A line-tagged diagnostic: `[line N] Error <location>: <message>`. The
/// location is empty for scanner errors, ` at end` when the failing token is
/// end-of-input, and ` at '<lexeme>'` otherwise.
pub open spec fn report_spec(line: nat, location: Seq<char>, message: Seq<char>) -> Seq<char> {
    "[line "@ + dec_digits(line) + "] Error "@ + location + ": "@ + message
}

/// The text of a scanner diagnostic, whose location part is empty.
pub open spec fn line_error_spec(line: nat, message: Seq<char>) -> Seq<char> {
    report_spec(line, Seq::<char>::empty(), message)
}

/// The text of a parser diagnostic: located ` at end` when the failing token
/// is the end-of-input marker, ` at '<lexeme>'` otherwise.
pub open spec fn token_error_spec(token: TokenV, message: Seq<char>) -> Seq<char> {
    if token.token_type == TokenType::EOF {
        report_spec(token.line, " at end"@, message)
    } else {
        report_spec(token.line, " at '"@ + token.lexeme + "'"@, message)
    }
}

/// Builds one line-tagged diagnostic.
fn report(line: usize, location: &str, message: &str) -> (r: String)
    ensures
        r@ == report_spec(line as nat, location@, message@),
{
    let mut s = String::from_str("[line ");
    push_decimal(line as u64, &mut s);
    s.append("] Error ");
    s.append(location);
    s.append(": ");
    s.append(message);
    s
}

/// Builds the diagnostic for an error tied to a source line alone, as the
/// scanner reports them.
pub fn line_error(line: usize, message: &str) -> (r: String)
    ensures
        r@ == line_error_spec(line as nat, message@),
{
    proof {
        reveal_strlit("");
    }
    report(line, "", message)
}

/// Builds the diagnostic for an error tied to a source line alone; kept
/// beside [`line_error`] for callers that hand the message over by value.
pub fn error(line: usize, message: String) -> (r: String)
    ensures
        r@ == line_error_spec(line as nat, message@),
{
    proof {
        reveal_strlit("");
    }
    report(line, "", message.as_str())
}

/// Builds the diagnostic for a syntax error at a token: located ` at end`
/// on the end-of-input marker, ` at '<lexeme>'` otherwise.
pub fn token_error(token: &Token, message: &str) -> (r: String)
    ensures
        r@ == token_error_spec(token@, message@),
{
    if *token.token_type() == TokenType::EOF {
        report(token.line(), " at end", message)
    } else {
        let mut location = String::from_str(" at '");
        location.append(token.lexeme().as_str());
        location.append("'");
        report(token.line(), location.as_str(), message)
    }
}

} // verus!
