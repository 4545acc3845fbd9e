//! The closed variant of literal values a token can carry: a number, a piece
//! of text, a boolean, or the absence of a value (`nil`).
//!
//! A number is kept as the exact digit text it was scanned from. The
//! scanner's grammar (a digit run with at most one interior decimal point)
//! guarantees the text denotes a decimal number, and the printer's canonical
//! form renders that text verbatim, so no floating-point value is ever
//! needed in the pipeline.

use vstd::prelude::*;

verus! {

/// Mathematical model of an [`Object`]: the same variants over sequences of
/// characters.
pub enum ObjectV {
    Num(Seq<char>),
    Str(Seq<char>),
    Bool(bool),
    Nil,
}

impl ObjectV {
    /// The display form: numbers and text verbatim, booleans as
    /// `true`/`false`, absence as `nil`.
    pub open spec fn display_spec(self) -> Seq<char> {
        match self {
            ObjectV::Num(s) => s,
            ObjectV::Str(s) => s,
            ObjectV::Bool(b) => if b {
                "true"@
            } else {
                "false"@
            },
            ObjectV::Nil => "nil"@,
        }
    }
}

/// A literal value attached to a token: the digit text of a number literal,
/// the contents of a string literal, a boolean, or `nil`.
#[derive(Debug, PartialEq)]
pub enum Object {
    Num(String),
    Str(String),
    Bool(bool),
    Nil,
}

impl View for Object {
    type V = ObjectV;

    open spec fn view(&self) -> ObjectV {
        match self {
            Object::Num(s) => ObjectV::Num(s@),
            Object::Str(s) => ObjectV::Str(s@),
            Object::Bool(b) => ObjectV::Bool(*b),
            Object::Nil => ObjectV::Nil,
        }
    }
}

impl DeepView for Object {
    type V = ObjectV;

    open spec fn deep_view(&self) -> ObjectV {
        self.view()
    }
}

impl Clone for Object {
    fn clone(&self) -> (r: Self)
        ensures
            r@ == self@,
    {
        match self {
            Object::Num(s) => Object::Num(s.clone()),
            Object::Str(s) => Object::Str(s.clone()),
            Object::Bool(b) => Object::Bool(*b),
            Object::Nil => Object::Nil,
        }
    }
}

impl Object {
    /// Renders the value for display: numbers and text print verbatim,
    /// booleans print as `true`/`false`, absence prints as `nil`.
    pub fn to_display_string(&self) -> (r: String)
        ensures
            r@ == self@.display_spec(),
    {
        match self {
            Object::Num(s) => s.clone(),
            Object::Str(s) => s.clone(),
            Object::Bool(b) => {
                if *b {
                    String::from_str("true")
                } else {
                    String::from_str("false")
                }
            },
            Object::Nil => String::from_str("nil"),
        }
    }
}

} // verus!
