//! The fixed enumeration of lexical categories a lexeme can be classified
//! into: punctuation, one- and two-character operators, literals, keywords,
//! the generic identifier, and the end-of-input marker.

use vstd::prelude::*;

verus! {

/// The category of one token. The variant set is part of the external
/// interface and is reproduced exactly.
#[allow(non_camel_case_types)]
#[derive(Debug, Clone, Copy, PartialEq, Eq, Structural)]
pub enum TokenType {
    // Single-character tokens
    LEFT_PAREN,
    RIGHT_PAREN,
    LEFT_BRACE,
    RIGHT_BRACE,
    COMMA,
    DOT,
    MINUS,
    PLUS,
    SEMICOLON,
    SLASH,
    STAR,
    // One or two character tokens
    BANG,
    BANG_EQUAL,
    EQUAL,
    EQUAL_EQUAL,
    GREATER,
    GREATER_EQUAL,
    LESS,
    LESS_EQUAL,
    // Literals
    IDENTIFIER,
    STRING,
    NUMBER,
    // Keywords
    AND,
    CLASS,
    ELSE,
    FALSE,
    FUN,
    FOR,
    IF,
    NIL,
    OR,
    PRINT,
    RETURN,
    SUPER,
    THIS,
    TRUE,
    VAR,
    WHILE,
    EOF,
}

impl TokenType {
    /// The upper-case name of the variant, as it appears in diagnostics.
    pub open spec fn name_spec(self) -> Seq<char> {
        match self {
            TokenType::LEFT_PAREN => "LEFT_PAREN"@,
            TokenType::RIGHT_PAREN => "RIGHT_PAREN"@,
            TokenType::LEFT_BRACE => "LEFT_BRACE"@,
            TokenType::RIGHT_BRACE => "RIGHT_BRACE"@,
            TokenType::COMMA => "COMMA"@,
            TokenType::DOT => "DOT"@,
            TokenType::MINUS => "MINUS"@,
            TokenType::PLUS => "PLUS"@,
            TokenType::SEMICOLON => "SEMICOLON"@,
            TokenType::SLASH => "SLASH"@,
            TokenType::STAR => "STAR"@,
            TokenType::BANG => "BANG"@,
            TokenType::BANG_EQUAL => "BANG_EQUAL"@,
            TokenType::EQUAL => "EQUAL"@,
            TokenType::EQUAL_EQUAL => "EQUAL_EQUAL"@,
            TokenType::GREATER => "GREATER"@,
            TokenType::GREATER_EQUAL => "GREATER_EQUAL"@,
            TokenType::LESS => "LESS"@,
            TokenType::LESS_EQUAL => "LESS_EQUAL"@,
            TokenType::IDENTIFIER => "IDENTIFIER"@,
            TokenType::STRING => "STRING"@,
            TokenType::NUMBER => "NUMBER"@,
            TokenType::AND => "AND"@,
            TokenType::CLASS => "CLASS"@,
            TokenType::ELSE => "ELSE"@,
            TokenType::FALSE => "FALSE"@,
            TokenType::FUN => "FUN"@,
            TokenType::FOR => "FOR"@,
            TokenType::IF => "IF"@,
            TokenType::NIL => "NIL"@,
            TokenType::OR => "OR"@,
            TokenType::PRINT => "PRINT"@,
            TokenType::RETURN => "RETURN"@,
            TokenType::SUPER => "SUPER"@,
            TokenType::THIS => "THIS"@,
            TokenType::TRUE => "TRUE"@,
            TokenType::VAR => "VAR"@,
            TokenType::WHILE => "WHILE"@,
            TokenType::EOF => "EOF"@,
        }
    }

    /// Renders the variant's name, for diagnostics and debugging output.
    pub fn name(&self) -> (r: String)
        ensures
            r@ == self.name_spec(),
    {
        match self {
            TokenType::LEFT_PAREN => String::from_str("LEFT_PAREN"),
            TokenType::RIGHT_PAREN => String::from_str("RIGHT_PAREN"),
            TokenType::LEFT_BRACE => String::from_str("LEFT_BRACE"),
            TokenType::RIGHT_BRACE => String::from_str("RIGHT_BRACE"),
            TokenType::COMMA => String::from_str("COMMA"),
            TokenType::DOT => String::from_str("DOT"),
            TokenType::MINUS => String::from_str("MINUS"),
            TokenType::PLUS => String::from_str("PLUS"),
            TokenType::SEMICOLON => String::from_str("SEMICOLON"),
            TokenType::SLASH => String::from_str("SLASH"),
            TokenType::STAR => String::from_str("STAR"),
            TokenType::BANG => String::from_str("BANG"),
            TokenType::BANG_EQUAL => String::from_str("BANG_EQUAL"),
            TokenType::EQUAL => String::from_str("EQUAL"),
            TokenType::EQUAL_EQUAL => String::from_str("EQUAL_EQUAL"),
            TokenType::GREATER => String::from_str("GREATER"),
            TokenType::GREATER_EQUAL => String::from_str("GREATER_EQUAL"),
            TokenType::LESS => String::from_str("LESS"),
            TokenType::LESS_EQUAL => String::from_str("LESS_EQUAL"),
            TokenType::IDENTIFIER => String::from_str("IDENTIFIER"),
            TokenType::STRING => String::from_str("STRING"),
            TokenType::NUMBER => String::from_str("NUMBER"),
            TokenType::AND => String::from_str("AND"),
            TokenType::CLASS => String::from_str("CLASS"),
            TokenType::ELSE => String::from_str("ELSE"),
            TokenType::FALSE => String::from_str("FALSE"),
            TokenType::FUN => String::from_str("FUN"),
            TokenType::FOR => String::from_str("FOR"),
            TokenType::IF => String::from_str("IF"),
            TokenType::NIL => String::from_str("NIL"),
            TokenType::OR => String::from_str("OR"),
            TokenType::PRINT => String::from_str("PRINT"),
            TokenType::RETURN => String::from_str("RETURN"),
            TokenType::SUPER => String::from_str("SUPER"),
            TokenType::THIS => String::from_str("THIS"),
            TokenType::TRUE => String::from_str("TRUE"),
            TokenType::VAR => String::from_str("VAR"),
            TokenType::WHILE => String::from_str("WHILE"),
            TokenType::EOF => String::from_str("EOF"),
        }
    }
}

} // verus!
