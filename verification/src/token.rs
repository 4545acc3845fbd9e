//! The immutable record describing one lexical unit: its category, the exact
//! source text it was scanned from, an optional literal value, and the source
//! line it starts on (0-based).

use crate::object::{Object, ObjectV};
use crate::token_type::TokenType;
use vstd::prelude::*;

verus! {

/// Mathematical model of a [`Token`].
pub struct TokenV {
    pub token_type: TokenType,
    pub lexeme: Seq<char>,
    pub literal: Option<ObjectV>,
    pub line: nat,
}

/// One lexical unit. Tokens are immutable once constructed and are cheaply
/// duplicable; the parser consumes them by value, so no syntax tree ever
/// borrows from the token stream.
#[derive(Debug, PartialEq)]
pub struct Token {
    token_type: TokenType,
    lexeme: String,
    literal: Option<Object>,
    line: usize,
}

impl View for Token {
    type V = TokenV;

    closed spec fn view(&self) -> TokenV {
        TokenV {
            token_type: self.token_type,
            lexeme: self.lexeme@,
            literal: match self.literal {
                Option::Some(o) => Option::Some(o@),
                Option::None => Option::None,
            },
            line: self.line as nat,
        }
    }
}

impl DeepView for Token {
    type V = TokenV;

    open spec fn deep_view(&self) -> TokenV {
        self.view()
    }
}

impl Clone for Token {
    fn clone(&self) -> (r: Self)
        ensures
            r@ == self@,
    {
        Token {
            token_type: self.token_type,
            lexeme: self.lexeme.clone(),
            literal: match &self.literal {
                Option::Some(o) => Option::Some(o.clone()),
                Option::None => Option::None,
            },
            line: self.line,
        }
    }
}

impl Token {
    /// Builds a token from its four attributes.
    pub fn new(token_type: TokenType, lexeme: String, literal: Option<Object>, line: usize) -> (r:
        Token)
        ensures
            r@ == (TokenV {
                token_type,
                lexeme: lexeme@,
                literal: match literal {
                    Option::Some(o) => Option::Some(o@),
                    Option::None => Option::None,
                },
                line: line as nat,
            }),
    {
        Token { token_type, lexeme, literal, line }
    }

    /// The token's lexical category.
    pub fn token_type(&self) -> (r: &TokenType)
        ensures
            *r == self@.token_type,
    {
        &self.token_type
    }

    /// The exact source substring the token was scanned from.
    pub fn lexeme(&self) -> (r: &String)
        ensures
            r@ == self@.lexeme,
    {
        &self.lexeme
    }

    /// The literal value carried by number and string tokens; absent on all
    /// other kinds.
    pub fn literal(&self) -> (r: Option<&Object>)
        ensures
            match r {
                Option::Some(o) => self@.literal == Option::Some(o@),
                Option::None => self@.literal is None,
            },
    {
        self.literal.as_ref()
    }

    /// The 0-based source line the token starts on.
    pub fn line(&self) -> (r: usize)
        ensures
            r as nat == self@.line,
    {
        self.line
    }
}

} // verus!
