//! The recursive-descent, precedence-climbing expression parser. Each
//! grammar level is one procedure that parses the next-higher level and then
//! greedily folds same-level operators into left-associated `Binary` nodes;
//! `unary` recurses directly and is right-associative; `primary` dispatches
//! on the current token. A syntax error is returned as a typed value naming
//! the offending token and the expected construct.
//!
//! The functions `sp_expression` .. `sp_primary` are the mathematical model
//! of the grammar; every parsing method is proved to return exactly what the
//! model says.

use crate::expr::{Expr, ExprV};
use crate::token::{Token, TokenV};
use crate::token_type::TokenType;
use vstd::prelude::*;

verus! {

/// A typed syntax failure: the token parsing stopped on, and the
/// expected-construct message. [`crate::token_error`] renders it in the
/// diagnostic format.
#[derive(Debug, PartialEq)]
pub struct ParseError {
    pub token: Token,
    pub message: String,
}

/// The outcome of one grammar rule at one position: a parsed tree and the
/// number of tokens it consumed, or a syntax error.
pub enum Parsed {
    Done { expr: ExprV, n: nat },
    Fail { token: TokenV, message: Seq<char> },
}

/// The tokens left from position `i` on, counted down to zero past the end.
pub open spec fn rem(len: int, i: int) -> nat {
    if i < len {
        (len - i) as nat
    } else {
        0
    }
}

/// The operators of the `equality` level.
pub open spec fn is_equality_op(k: TokenType) -> bool {
    k == TokenType::BANG_EQUAL || k == TokenType::EQUAL_EQUAL
}

/// The operators of the `comparison` level.
pub open spec fn is_comparison_op(k: TokenType) -> bool {
    k == TokenType::GREATER || k == TokenType::GREATER_EQUAL || k == TokenType::LESS || k
        == TokenType::LESS_EQUAL
}

/// The operators of the `term` level.
pub open spec fn is_term_op(k: TokenType) -> bool {
    k == TokenType::MINUS || k == TokenType::PLUS
}

/// The operators of the `factor` level.
pub open spec fn is_factor_op(k: TokenType) -> bool {
    k == TokenType::SLASH || k == TokenType::STAR
}

/// The operators of the `unary` level.
pub open spec fn is_unary_op(k: TokenType) -> bool {
    k == TokenType::BANG || k == TokenType::MINUS
}

/// The display text a literal token contributes to its `Literal` node.
pub open spec fn literal_text(lit: Option<crate::object::ObjectV>) -> Seq<char> {
    match lit {
        Some(o) => o.display_spec(),
        None => Seq::empty(),
    }
}

/// `expression → equality`.
#[verifier::opaque]
pub open spec fn sp_expression(toks: Seq<TokenV>, i: int) -> Parsed
    decreases rem(toks.len() as int, i), 12int,
{
    sp_equality(toks, i)
}

/// `equality → comparison ( ("!=" | "==") comparison )*`.
#[verifier::opaque]
pub open spec fn sp_equality(toks: Seq<TokenV>, i: int) -> Parsed
    decreases rem(toks.len() as int, i), 11int,
{
    match sp_comparison(toks, i) {
        Parsed::Done { expr, n } => match sp_equality_rest(toks, i + n, expr) {
            Parsed::Done { expr: e2, n: m } => Parsed::Done { expr: e2, n: (n + m) as nat },
            Parsed::Fail { token, message } => Parsed::Fail { token, message },
        },
        Parsed::Fail { token, message } => Parsed::Fail { token, message },
    }
}

/// The operator loop of the `equality` level, folding left.
#[verifier::opaque]
pub open spec fn sp_equality_rest(toks: Seq<TokenV>, j: int, acc: ExprV) -> Parsed
    decreases rem(toks.len() as int, j), 10int,
{
    if 0 <= j < toks.len() && toks[j].token_type != TokenType::EOF && is_equality_op(
        toks[j].token_type,
    ) {
        match sp_comparison(toks, j + 1) {
            Parsed::Done { expr, n } => match sp_equality_rest(
                toks,
                j + 1 + n,
                ExprV::Binary(Box::new(acc), toks[j], Box::new(expr)),
            ) {
                Parsed::Done { expr: e2, n: m } => Parsed::Done { expr: e2, n: (1 + n + m) as nat },
                Parsed::Fail { token, message } => Parsed::Fail { token, message },
            },
            Parsed::Fail { token, message } => Parsed::Fail { token, message },
        }
    } else {
        Parsed::Done { expr: acc, n: 0 }
    }
}

/// `comparison → term ( (">" | ">=" | "<" | "<=") term )*`.
#[verifier::opaque]
pub open spec fn sp_comparison(toks: Seq<TokenV>, i: int) -> Parsed
    decreases rem(toks.len() as int, i), 9int,
{
    match sp_term(toks, i) {
        Parsed::Done { expr, n } => match sp_comparison_rest(toks, i + n, expr) {
            Parsed::Done { expr: e2, n: m } => Parsed::Done { expr: e2, n: (n + m) as nat },
            Parsed::Fail { token, message } => Parsed::Fail { token, message },
        },
        Parsed::Fail { token, message } => Parsed::Fail { token, message },
    }
}

/// The operator loop of the `comparison` level, folding left.
#[verifier::opaque]
pub open spec fn sp_comparison_rest(toks: Seq<TokenV>, j: int, acc: ExprV) -> Parsed
    decreases rem(toks.len() as int, j), 8int,
{
    if 0 <= j < toks.len() && toks[j].token_type != TokenType::EOF && is_comparison_op(
        toks[j].token_type,
    ) {
        match sp_term(toks, j + 1) {
            Parsed::Done { expr, n } => match sp_comparison_rest(
                toks,
                j + 1 + n,
                ExprV::Binary(Box::new(acc), toks[j], Box::new(expr)),
            ) {
                Parsed::Done { expr: e2, n: m } => Parsed::Done { expr: e2, n: (1 + n + m) as nat },
                Parsed::Fail { token, message } => Parsed::Fail { token, message },
            },
            Parsed::Fail { token, message } => Parsed::Fail { token, message },
        }
    } else {
        Parsed::Done { expr: acc, n: 0 }
    }
}

/// `term → factor ( ("-" | "+") factor )*`.
#[verifier::opaque]
pub open spec fn sp_term(toks: Seq<TokenV>, i: int) -> Parsed
    decreases rem(toks.len() as int, i), 7int,
{
    match sp_factor(toks, i) {
        Parsed::Done { expr, n } => match sp_term_rest(toks, i + n, expr) {
            Parsed::Done { expr: e2, n: m } => Parsed::Done { expr: e2, n: (n + m) as nat },
            Parsed::Fail { token, message } => Parsed::Fail { token, message },
        },
        Parsed::Fail { token, message } => Parsed::Fail { token, message },
    }
}

/// The operator loop of the `term` level, folding left.
#[verifier::opaque]
pub open spec fn sp_term_rest(toks: Seq<TokenV>, j: int, acc: ExprV) -> Parsed
    decreases rem(toks.len() as int, j), 6int,
{
    if 0 <= j < toks.len() && toks[j].token_type != TokenType::EOF && is_term_op(
        toks[j].token_type,
    ) {
        match sp_factor(toks, j + 1) {
            Parsed::Done { expr, n } => match sp_term_rest(
                toks,
                j + 1 + n,
                ExprV::Binary(Box::new(acc), toks[j], Box::new(expr)),
            ) {
                Parsed::Done { expr: e2, n: m } => Parsed::Done { expr: e2, n: (1 + n + m) as nat },
                Parsed::Fail { token, message } => Parsed::Fail { token, message },
            },
            Parsed::Fail { token, message } => Parsed::Fail { token, message },
        }
    } else {
        Parsed::Done { expr: acc, n: 0 }
    }
}

/// `factor → unary ( ("/" | "*") unary )*`.
#[verifier::opaque]
pub open spec fn sp_factor(toks: Seq<TokenV>, i: int) -> Parsed
    decreases rem(toks.len() as int, i), 5int,
{
    match sp_unary(toks, i) {
        Parsed::Done { expr, n } => match sp_factor_rest(toks, i + n, expr) {
            Parsed::Done { expr: e2, n: m } => Parsed::Done { expr: e2, n: (n + m) as nat },
            Parsed::Fail { token, message } => Parsed::Fail { token, message },
        },
        Parsed::Fail { token, message } => Parsed::Fail { token, message },
    }
}

/// The operator loop of the `factor` level, folding left.
#[verifier::opaque]
pub open spec fn sp_factor_rest(toks: Seq<TokenV>, j: int, acc: ExprV) -> Parsed
    decreases rem(toks.len() as int, j), 4int,
{
    if 0 <= j < toks.len() && toks[j].token_type != TokenType::EOF && is_factor_op(
        toks[j].token_type,
    ) {
        match sp_unary(toks, j + 1) {
            Parsed::Done { expr, n } => match sp_factor_rest(
                toks,
                j + 1 + n,
                ExprV::Binary(Box::new(acc), toks[j], Box::new(expr)),
            ) {
                Parsed::Done { expr: e2, n: m } => Parsed::Done { expr: e2, n: (1 + n + m) as nat },
                Parsed::Fail { token, message } => Parsed::Fail { token, message },
            },
            Parsed::Fail { token, message } => Parsed::Fail { token, message },
        }
    } else {
        Parsed::Done { expr: acc, n: 0 }
    }
}

/// `unary → ("!" | "-") unary | primary`, right-associative by direct
/// recursion.
#[verifier::opaque]
pub open spec fn sp_unary(toks: Seq<TokenV>, i: int) -> Parsed
    decreases rem(toks.len() as int, i), 3int,
{
    if 0 <= i < toks.len() && toks[i].token_type != TokenType::EOF && is_unary_op(
        toks[i].token_type,
    ) {
        match sp_unary(toks, i + 1) {
            Parsed::Done { expr, n } => Parsed::Done {
                expr: ExprV::Unary(toks[i], Box::new(expr)),
                n: (1 + n) as nat,
            },
            Parsed::Fail { token, message } => Parsed::Fail { token, message },
        }
    } else {
        sp_primary(toks, i)
    }
}

/// `primary → NUMBER | STRING | "true" | "false" | "nil" | "(" expression ")"`.
/// Any other token here is the syntax error `Expect expression.`; a group
/// lacking its closing parenthesis is `Expect ')' after expression.`.
#[verifier::opaque]
pub open spec fn sp_primary(toks: Seq<TokenV>, i: int) -> Parsed
    decreases rem(toks.len() as int, i), 2int,
{
    if !(0 <= i < toks.len()) {
        Parsed::Fail { token: toks[i], message: "Expect expression."@ }
    } else {
        let t = toks[i];
        if t.token_type == TokenType::FALSE {
            Parsed::Done { expr: ExprV::Literal("false"@), n: 1 }
        } else if t.token_type == TokenType::TRUE {
            Parsed::Done { expr: ExprV::Literal("true"@), n: 1 }
        } else if t.token_type == TokenType::NIL {
            Parsed::Done { expr: ExprV::Literal("nil"@), n: 1 }
        } else if t.token_type == TokenType::NUMBER || t.token_type == TokenType::STRING {
            Parsed::Done { expr: ExprV::Literal(literal_text(t.literal)), n: 1 }
        } else if t.token_type == TokenType::LEFT_PAREN {
            match sp_expression(toks, i + 1) {
                Parsed::Done { expr, n } => {
                    let j = i + 1 + n;
                    if 0 <= j < toks.len() && toks[j].token_type != TokenType::EOF && toks[j].token_type
                        == TokenType::RIGHT_PAREN {
                        Parsed::Done { expr: ExprV::Grouping(Box::new(expr)), n: (n + 2) as nat }
                    } else {
                        Parsed::Fail { token: toks[j], message: "Expect ')' after expression."@ }
                    }
                },
                Parsed::Fail { token, message } => Parsed::Fail { token, message },
            }
        } else {
            Parsed::Fail { token: t, message: "Expect expression."@ }
        }
    }
}

/// The whole-input rule: one expression parsed from the front.
pub open spec fn sp_parse(toks: Seq<TokenV>) -> Parsed {
    sp_expression(toks, 0)
}

/// How a rule's model outcome shows up in a method's result and cursor: on
/// success the returned tree is the model's tree and the cursor moved past
/// exactly the consumed tokens; on failure the returned error carries the
/// model's token and message.
pub open spec fn parse_rel(
    outcome: Parsed,
    r: Result<Expr, ParseError>,
    oldc: nat,
    newc: nat,
) -> bool {
    match outcome {
        Parsed::Done { expr, n } => match r {
            Result::Ok(e) => e.deep_view() == expr && newc == oldc + n,
            Result::Err(_) => false,
        },
        Parsed::Fail { token, message } => match r {
            Result::Ok(_) => false,
            Result::Err(pe) => pe.token@ == token && pe.message@ == message,
        },
    }
}

/// The position `synchronize` stops at, scanning from `j`: the first
/// position standing right after a semicolon, or holding a
/// statement-starting keyword, or holding the end-of-input marker.
pub open spec fn sp_sync_loop(toks: Seq<TokenV>, j: int) -> int
    decreases rem(toks.len() as int, j),
{
    if !(0 <= j < toks.len()) || toks[j].token_type == TokenType::EOF {
        j
    } else if toks[j - 1].token_type == TokenType::SEMICOLON {
        j
    } else if is_sync_kind(toks[j].token_type) {
        j
    } else {
        sp_sync_loop(toks, j + 1)
    }
}

/// The keywords that can begin a statement, at which recovery stops.
pub open spec fn is_sync_kind(k: TokenType) -> bool {
    k == TokenType::CLASS || k == TokenType::FUN || k == TokenType::VAR || k == TokenType::FOR || k
        == TokenType::IF || k == TokenType::WHILE || k == TokenType::PRINT || k
        == TokenType::RETURN
}

/// The position `synchronize` stops at from position `i`: the erroring
/// token is discarded first (unless it is the end-of-input marker), then
/// tokens are dropped up to a statement boundary.
pub open spec fn sp_sync(toks: Seq<TokenV>, i: int) -> int {
    if 0 <= i < toks.len() && toks[i].token_type != TokenType::EOF {
        sp_sync_loop(toks, i + 1)
    } else {
        sp_sync_loop(toks, i)
    }
}

/// The parser's state: the token sequence under examination and a single
/// forward-only cursor into it. Each instance is single-use: constructed,
/// driven once, discarded.
pub struct Parser {
    tokens: Vec<Token>,
    current: usize,
}

impl Parser {
    /// The models of the tokens being parsed.
    pub closed spec fn toks(self) -> Seq<TokenV> {
        self.tokens.deep_view()
    }

    /// The cursor.
    pub closed spec fn cur(self) -> nat {
        self.current as nat
    }

    /// A parsable token sequence: non-empty, ending in the end-of-input
    /// marker, every number and string token carrying its literal value;
    /// and the cursor strictly inside the sequence.
    pub open spec fn wf(self) -> bool {
        &&& self.toks().len() >= 1
        &&& self.toks().last().token_type == TokenType::EOF
        &&& self.cur() < self.toks().len()
        &&& forall|k: int|
            0 <= k < self.toks().len() && (self.toks()[k].token_type == TokenType::NUMBER
                || self.toks()[k].token_type == TokenType::STRING)
                ==> (#[trigger] self.toks()[k].literal) is Some
    }

    /// Builds a parser over `tokens`, cursor at the front.
    pub fn new(tokens: Vec<Token>) -> (r: Self)
        ensures
            r.toks() == tokens.deep_view(),
            r.cur() == 0,
    {
        Parser { tokens, current: 0 }
    }

    /// Whether the cursor stands on the end-of-input marker.
    fn is_at_end(&self) -> (r: bool)
        requires
            self.wf(),
        ensures
            r == (self.toks()[self.cur() as int].token_type == TokenType::EOF),
    {
        *self.peek().token_type() == TokenType::EOF
    }

    /// The token under the cursor; does not consume.
    fn peek(&self) -> (r: &Token)
        requires
            self.cur() < self.toks().len(),
        ensures
            r@ == self.toks()[self.cur() as int],
    {
        &self.tokens[self.current]
    }

    /// The token just consumed.
    fn previous(&self) -> (r: Token)
        requires
            1 <= self.cur() < self.toks().len(),
        ensures
            r@ == self.toks()[self.cur() - 1],
    {
        self.tokens[self.current - 1].clone()
    }

    /// Consumes the token under the cursor, never moving past the
    /// end-of-input marker, and returns the token just consumed.
    fn advance(&mut self) -> (r: Token)
        requires
            old(self).wf(),
            old(self).toks()[old(self).cur() as int].token_type != TokenType::EOF || old(
                self,
            ).cur() >= 1,
        ensures
            final(self).wf(),
            final(self).toks() == old(self).toks(),
            final(self).cur() == if old(self).toks()[old(self).cur() as int].token_type
                != TokenType::EOF {
                old(self).cur() + 1
            } else {
                old(self).cur()
            },
            r@ == final(self).toks()[final(self).cur() - 1],
    {
        if !self.is_at_end() {
            proof {
                assert(old(self).cur() != old(self).toks().len() - 1);
            }
            let _n: usize = self.tokens.len();
            self.current = self.current + 1;
        }
        self.previous()
    }

    /// Whether the token under the cursor has kind `token_type`; the
    /// end-of-input marker matches nothing.
    fn check(&mut self, token_type: TokenType) -> (r: bool)
        requires
            old(self).wf(),
        ensures
            *final(self) == *old(self),
            r == (old(self).toks()[old(self).cur() as int].token_type != TokenType::EOF && old(
                self,
            ).toks()[old(self).cur() as int].token_type == token_type),
    {
        if self.is_at_end() {
            return false;
        }
        *self.peek().token_type() == token_type
    }

    /// Consumes the token under the cursor when its kind is among `types`.
    fn match_types(&mut self, types: Vec<TokenType>) -> (r: bool)
        requires
            old(self).wf(),
        ensures
            final(self).wf(),
            final(self).toks() == old(self).toks(),
            r == (old(self).toks()[old(self).cur() as int].token_type != TokenType::EOF
                && types@.contains(old(self).toks()[old(self).cur() as int].token_type)),
            final(self).cur() == if r {
                old(self).cur() + 1
            } else {
                old(self).cur()
            },
            r ==> final(self).cur() >= 1,
    {
        let mut idx: usize = 0;
        while idx < types.len()
            invariant
                old(self).wf(),
                *self == *old(self),
                idx <= types@.len(),
                forall|k: int|
                    0 <= k < idx ==> !(old(self).toks()[old(self).cur() as int].token_type
                        != TokenType::EOF && old(self).toks()[old(self).cur() as int].token_type
                        == types@[k]),
            decreases types@.len() - idx,
        {
            if self.check(types[idx]) {
                self.advance();
                return true;
            }
            idx = idx + 1;
        }
        false
    }

    /// Builds the syntax error for the token under the cursor.
    fn error(&self, message: &str) -> (r: ParseError)
        requires
            self.cur() < self.toks().len(),
        ensures
            r.token@ == self.toks()[self.cur() as int],
            r.message@ == message@,
    {
        ParseError { token: self.peek().clone(), message: String::from_str(message) }
    }

    /// Consumes the token under the cursor when its kind is `token_type`,
    /// or returns the syntax error `message` naming that token.
    fn consume(&mut self, token_type: TokenType, message: &str) -> (r: Result<Token, ParseError>)
        requires
            old(self).wf(),
        ensures
            final(self).wf(),
            final(self).toks() == old(self).toks(),
            if old(self).toks()[old(self).cur() as int].token_type != TokenType::EOF && old(
                self,
            ).toks()[old(self).cur() as int].token_type == token_type {
                &&& r is Ok
                &&& r->Ok_0@ == old(self).toks()[old(self).cur() as int]
                &&& final(self).cur() == old(self).cur() + 1
            } else {
                &&& r is Err
                &&& r->Err_0.token@ == old(self).toks()[old(self).cur() as int]
                &&& r->Err_0.message@ == message@
                &&& final(self).cur() == old(self).cur()
            },
    {
        if self.check(token_type) {
            Ok(self.advance())
        } else {
            Err(self.error(message))
        }
    }

    /// Parses one expression from the cursor on: the result and the new
    /// cursor are exactly what [`sp_parse`] gives for the token sequence.
    /// `Ok` is returned on precisely the inputs the grammar accepts; the
    /// error otherwise carries the offending token and the expected
    /// construct.
    pub fn parse(&mut self) -> (r: Result<Expr, ParseError>)
        requires
            old(self).wf(),
        ensures
            final(self).wf(),
            final(self).toks() == old(self).toks(),
            parse_rel(
                sp_expression(old(self).toks(), old(self).cur() as int),
                r,
                old(self).cur(),
                final(self).cur(),
            ),
            old(self).cur() == 0 ==> parse_rel(
                sp_parse(old(self).toks()),
                r,
                0,
                final(self).cur(),
            ),
    {
        self.expression()
    }

    /// `expression → equality`.
    fn expression(&mut self) -> (r: Result<Expr, ParseError>)
        requires
            old(self).wf(),
        ensures
            final(self).wf(),
            final(self).toks() == old(self).toks(),
            final(self).cur() >= old(self).cur(),
            parse_rel(
                sp_expression(old(self).toks(), old(self).cur() as int),
                r,
                old(self).cur(),
                final(self).cur(),
            ),
        decreases rem(self.toks().len() as int, self.cur() as int), 12int,
    {
        proof {
            reveal(sp_expression);
            reveal(sp_equality);
        }
        self.equality()
    }

    /// `equality → comparison ( ("!=" | "==") comparison )*`, folding left.
    #[verifier::rlimit(100)]
    fn equality(&mut self) -> (r: Result<Expr, ParseError>)
        requires
            old(self).wf(),
        ensures
            final(self).wf(),
            final(self).toks() == old(self).toks(),
            final(self).cur() >= old(self).cur(),
            parse_rel(
                sp_equality(old(self).toks(), old(self).cur() as int),
                r,
                old(self).cur(),
                final(self).cur(),
            ),
        decreases rem(self.toks().len() as int, self.cur() as int), 11int,
    {
        proof {
            reveal(sp_equality);
            reveal(sp_equality_rest);
            reveal(sp_comparison);
        }
        let ghost toks = old(self).toks();
        let ghost c0 = old(self).cur() as int;
        let mut expr = match self.comparison() {
            Ok(e) => e,
            Err(pe) => {
                return Err(pe);
            },
        };
        while self.match_types(vec![TokenType::BANG_EQUAL, TokenType::EQUAL_EQUAL])
            invariant
                self.wf(),
                toks == old(self).toks(),
                c0 == old(self).cur() as int,
                self.toks() == toks,
                c0 <= self.cur(),
                match sp_equality_rest(toks, self.cur() as int, expr.deep_view()) {
                    Parsed::Done { expr: e2, n: m } => sp_equality(toks, c0) == (Parsed::Done {
                        expr: e2,
                        n: ((self.cur() - c0) + m) as nat,
                    }),
                    Parsed::Fail { token, message } => sp_equality(toks, c0) == (Parsed::Fail {
                        token,
                        message,
                    }),
                },
            decreases rem(toks.len() as int, self.cur() as int),
        {
            proof {
                reveal(sp_equality);
                reveal(sp_equality_rest);
                reveal(sp_comparison);
            }
            let ghost jop = self.cur() as int - 1;
            let ghost acc0 = expr.deep_view();
            let operator = self.previous();
            let right = match self.comparison() {
                Ok(e) => e,
                Err(pe) => {
                    proof {
                        assert(sp_equality_rest(toks, jop, acc0) == (Parsed::Fail {
                            token: pe.token@,
                            message: pe.message@,
                        }));
                    }
                    return Err(pe);
                },
            };
            proof {
                let n = (self.cur() as int - (jop + 1)) as nat;
                assert(sp_equality_rest(toks, jop, acc0) == (match sp_equality_rest(
                    toks,
                    jop + 1 + n,
                    ExprV::Binary(Box::new(acc0), toks[jop], Box::new(right.deep_view())),
                ) {
                    Parsed::Done { expr: e2, n: m } => Parsed::Done {
                        expr: e2,
                        n: (1 + n + m) as nat,
                    },
                    Parsed::Fail { token, message } => Parsed::Fail { token, message },
                }));
            }
            expr = Expr::Binary(Box::new(expr), operator, Box::new(right));
        }
        proof {
            reveal(sp_equality);
            reveal(sp_equality_rest);
            reveal(sp_comparison);
        }
        Ok(expr)
    }

    /// `comparison → term ( (">" | ">=" | "<" | "<=") term )*`, folding
    /// left.
    #[verifier::rlimit(100)]
    #[verifier::spinoff_prover]
    fn comparison(&mut self) -> (r: Result<Expr, ParseError>)
        requires
            old(self).wf(),
        ensures
            final(self).wf(),
            final(self).toks() == old(self).toks(),
            final(self).cur() >= old(self).cur(),
            parse_rel(
                sp_comparison(old(self).toks(), old(self).cur() as int),
                r,
                old(self).cur(),
                final(self).cur(),
            ),
        decreases rem(self.toks().len() as int, self.cur() as int), 9int,
    {
        proof {
            reveal(sp_comparison);
            reveal(sp_comparison_rest);
            reveal(sp_term);
        }
        let ghost toks = old(self).toks();
        let ghost c0 = old(self).cur() as int;
        let mut expr = match self.term() {
            Ok(e) => e,
            Err(pe) => {
                return Err(pe);
            },
        };
        while self.match_types(
            vec![
                TokenType::GREATER,
                TokenType::GREATER_EQUAL,
                TokenType::LESS,
                TokenType::LESS_EQUAL,
            ],
        )
            invariant
                self.wf(),
                toks == old(self).toks(),
                c0 == old(self).cur() as int,
                self.toks() == toks,
                c0 <= self.cur(),
                match sp_comparison_rest(toks, self.cur() as int, expr.deep_view()) {
                    Parsed::Done { expr: e2, n: m } => sp_comparison(toks, c0) == (Parsed::Done {
                        expr: e2,
                        n: ((self.cur() - c0) + m) as nat,
                    }),
                    Parsed::Fail { token, message } => sp_comparison(toks, c0) == (Parsed::Fail {
                        token,
                        message,
                    }),
                },
            decreases rem(toks.len() as int, self.cur() as int),
        {
            proof {
                reveal(sp_comparison);
                reveal(sp_comparison_rest);
                reveal(sp_term);
            }
            let ghost jop = self.cur() as int - 1;
            let ghost acc0 = expr.deep_view();
            let operator = self.previous();
            let right = match self.term() {
                Ok(e) => e,
                Err(pe) => {
                    proof {
                        assert(sp_comparison_rest(toks, jop, acc0) == (Parsed::Fail {
                            token: pe.token@,
                            message: pe.message@,
                        }));
                    }
                    return Err(pe);
                },
            };
            proof {
                let n = (self.cur() as int - (jop + 1)) as nat;
                assert(sp_comparison_rest(toks, jop, acc0) == (match sp_comparison_rest(
                    toks,
                    jop + 1 + n,
                    ExprV::Binary(Box::new(acc0), toks[jop], Box::new(right.deep_view())),
                ) {
                    Parsed::Done { expr: e2, n: m } => Parsed::Done {
                        expr: e2,
                        n: (1 + n + m) as nat,
                    },
                    Parsed::Fail { token, message } => Parsed::Fail { token, message },
                }));
            }
            expr = Expr::Binary(Box::new(expr), operator, Box::new(right));
        }
        proof {
            reveal(sp_comparison);
            reveal(sp_comparison_rest);
            reveal(sp_term);
        }
        Ok(expr)
    }

    /// `term → factor ( ("-" | "+") factor )*`, folding left.
    #[verifier::rlimit(100)]
    fn term(&mut self) -> (r: Result<Expr, ParseError>)
        requires
            old(self).wf(),
        ensures
            final(self).wf(),
            final(self).toks() == old(self).toks(),
            final(self).cur() >= old(self).cur(),
            parse_rel(
                sp_term(old(self).toks(), old(self).cur() as int),
                r,
                old(self).cur(),
                final(self).cur(),
            ),
        decreases rem(self.toks().len() as int, self.cur() as int), 7int,
    {
        proof {
            reveal(sp_term);
            reveal(sp_term_rest);
            reveal(sp_factor);
        }
        let ghost toks = old(self).toks();
        let ghost c0 = old(self).cur() as int;
        let mut expr = match self.factor() {
            Ok(e) => e,
            Err(pe) => {
                return Err(pe);
            },
        };
        while self.match_types(vec![TokenType::MINUS, TokenType::PLUS])
            invariant
                self.wf(),
                toks == old(self).toks(),
                c0 == old(self).cur() as int,
                self.toks() == toks,
                c0 <= self.cur(),
                match sp_term_rest(toks, self.cur() as int, expr.deep_view()) {
                    Parsed::Done { expr: e2, n: m } => sp_term(toks, c0) == (Parsed::Done {
                        expr: e2,
                        n: ((self.cur() - c0) + m) as nat,
                    }),
                    Parsed::Fail { token, message } => sp_term(toks, c0) == (Parsed::Fail {
                        token,
                        message,
                    }),
                },
            decreases rem(toks.len() as int, self.cur() as int),
        {
            proof {
                reveal(sp_term);
                reveal(sp_term_rest);
                reveal(sp_factor);
            }
            let ghost jop = self.cur() as int - 1;
            let ghost acc0 = expr.deep_view();
            let operator = self.previous();
            let right = match self.factor() {
                Ok(e) => e,
                Err(pe) => {
                    proof {
                        assert(sp_term_rest(toks, jop, acc0) == (Parsed::Fail {
                            token: pe.token@,
                            message: pe.message@,
                        }));
                    }
                    return Err(pe);
                },
            };
            proof {
                let n = (self.cur() as int - (jop + 1)) as nat;
                assert(sp_term_rest(toks, jop, acc0) == (match sp_term_rest(
                    toks,
                    jop + 1 + n,
                    ExprV::Binary(Box::new(acc0), toks[jop], Box::new(right.deep_view())),
                ) {
                    Parsed::Done { expr: e2, n: m } => Parsed::Done {
                        expr: e2,
                        n: (1 + n + m) as nat,
                    },
                    Parsed::Fail { token, message } => Parsed::Fail { token, message },
                }));
            }
            expr = Expr::Binary(Box::new(expr), operator, Box::new(right));
        }
        proof {
            reveal(sp_term);
            reveal(sp_term_rest);
            reveal(sp_factor);
        }
        Ok(expr)
    }

    /// `factor → unary ( ("/" | "*") unary )*`, folding left.
    #[verifier::rlimit(100)]
    fn factor(&mut self) -> (r: Result<Expr, ParseError>)
        requires
            old(self).wf(),
        ensures
            final(self).wf(),
            final(self).toks() == old(self).toks(),
            final(self).cur() >= old(self).cur(),
            parse_rel(
                sp_factor(old(self).toks(), old(self).cur() as int),
                r,
                old(self).cur(),
                final(self).cur(),
            ),
        decreases rem(self.toks().len() as int, self.cur() as int), 5int,
    {
        proof {
            reveal(sp_factor);
            reveal(sp_factor_rest);
            reveal(sp_unary);
        }
        let ghost toks = old(self).toks();
        let ghost c0 = old(self).cur() as int;
        let mut expr = match self.unary() {
            Ok(e) => e,
            Err(pe) => {
                return Err(pe);
            },
        };
        while self.match_types(vec![TokenType::SLASH, TokenType::STAR])
            invariant
                self.wf(),
                toks == old(self).toks(),
                c0 == old(self).cur() as int,
                self.toks() == toks,
                c0 <= self.cur(),
                match sp_factor_rest(toks, self.cur() as int, expr.deep_view()) {
                    Parsed::Done { expr: e2, n: m } => sp_factor(toks, c0) == (Parsed::Done {
                        expr: e2,
                        n: ((self.cur() - c0) + m) as nat,
                    }),
                    Parsed::Fail { token, message } => sp_factor(toks, c0) == (Parsed::Fail {
                        token,
                        message,
                    }),
                },
            decreases rem(toks.len() as int, self.cur() as int),
        {
            proof {
                reveal(sp_factor);
                reveal(sp_factor_rest);
                reveal(sp_unary);
            }
            let ghost jop = self.cur() as int - 1;
            let ghost acc0 = expr.deep_view();
            let operator = self.previous();
            let right = match self.unary() {
                Ok(e) => e,
                Err(pe) => {
                    proof {
                        assert(sp_factor_rest(toks, jop, acc0) == (Parsed::Fail {
                            token: pe.token@,
                            message: pe.message@,
                        }));
                    }
                    return Err(pe);
                },
            };
            proof {
                let n = (self.cur() as int - (jop + 1)) as nat;
                assert(sp_factor_rest(toks, jop, acc0) == (match sp_factor_rest(
                    toks,
                    jop + 1 + n,
                    ExprV::Binary(Box::new(acc0), toks[jop], Box::new(right.deep_view())),
                ) {
                    Parsed::Done { expr: e2, n: m } => Parsed::Done {
                        expr: e2,
                        n: (1 + n + m) as nat,
                    },
                    Parsed::Fail { token, message } => Parsed::Fail { token, message },
                }));
            }
            expr = Expr::Binary(Box::new(expr), operator, Box::new(right));
        }
        proof {
            reveal(sp_factor);
            reveal(sp_factor_rest);
            reveal(sp_unary);
        }
        Ok(expr)
    }

    /// `unary → ("!" | "-") unary | primary`, right-associative by direct
    /// recursion.
    #[verifier::rlimit(100)]
    fn unary(&mut self) -> (r: Result<Expr, ParseError>)
        requires
            old(self).wf(),
        ensures
            final(self).wf(),
            final(self).toks() == old(self).toks(),
            final(self).cur() >= old(self).cur(),
            parse_rel(
                sp_unary(old(self).toks(), old(self).cur() as int),
                r,
                old(self).cur(),
                final(self).cur(),
            ),
        decreases rem(self.toks().len() as int, self.cur() as int), 3int,
    {
        proof {
            reveal(sp_unary);
            reveal(sp_primary);
        }
        if self.match_types(vec![TokenType::BANG, TokenType::MINUS]) {
            let operator = self.previous();
            let right = match self.unary() {
                Ok(e) => e,
                Err(pe) => {
                    return Err(pe);
                },
            };
            return Ok(Expr::Unary(operator, Box::new(right)));
        }
        self.primary()
    }

    /// `primary → NUMBER | STRING | "true" | "false" | "nil" |
    /// "(" expression ")"`; any other token here is the syntax error
    /// `Expect expression.`.
    #[verifier::rlimit(100)]
    fn primary(&mut self) -> (r: Result<Expr, ParseError>)
        requires
            old(self).wf(),
        ensures
            final(self).wf(),
            final(self).toks() == old(self).toks(),
            final(self).cur() >= old(self).cur(),
            parse_rel(
                sp_primary(old(self).toks(), old(self).cur() as int),
                r,
                old(self).cur(),
                final(self).cur(),
            ),
        decreases rem(self.toks().len() as int, self.cur() as int), 2int,
    {
        proof {
            reveal(sp_primary);
            reveal(sp_expression);
        }
        let ghost toks = old(self).toks();
        let ghost c0 = old(self).cur() as int;
        if self.match_types(vec![TokenType::FALSE]) {
            return Ok(Expr::Literal(String::from_str("false")));
        }
        if self.match_types(vec![TokenType::TRUE]) {
            return Ok(Expr::Literal(String::from_str("true")));
        }
        if self.match_types(vec![TokenType::NIL]) {
            return Ok(Expr::Literal(String::from_str("nil")));
        }
        if self.match_types(vec![TokenType::NUMBER, TokenType::STRING]) {
            let prev = self.previous();
            match prev.literal() {
                Some(o) => {
                    return Ok(Expr::Literal(o.to_display_string()));
                },
                None => {
                    // the well-formedness of the token sequence rules this out
                    proof {
                        assert(false);
                    }
                    return Err(self.error("Expect expression."));
                },
            }
        }
        if self.match_types(vec![TokenType::LEFT_PAREN]) {
            let expr = match self.expression() {
                Ok(e) => e,
                Err(pe) => {
                    return Err(pe);
                },
            };
            match self.consume(TokenType::RIGHT_PAREN, "Expect ')' after expression.") {
                Ok(_) => {
                    return Ok(Expr::Grouping(Box::new(expr)));
                },
                Err(pe) => {
                    return Err(pe);
                },
            }
        }
        Err(self.error("Expect expression."))
    }

    /// Discards tokens up to a statement boundary: past a semicolon, or to
    /// a statement-starting keyword or the end of input. Recovery for a
    /// caller that parses several top-level constructs in turn.
    pub fn synchronize(&mut self)
        requires
            old(self).wf(),
            old(self).cur() >= 1 || old(self).toks()[old(self).cur() as int].token_type
                != TokenType::EOF,
        ensures
            final(self).wf(),
            final(self).toks() == old(self).toks(),
            final(self).cur() as int == sp_sync(old(self).toks(), old(self).cur() as int),
    {
        let ghost toks = old(self).toks();
        let ghost c0 = old(self).cur() as int;
        self.advance();
        while !self.is_at_end()
            invariant
                self.wf(),
                toks == old(self).toks(),
                c0 == old(self).cur() as int,
                self.toks() == toks,
                1 <= self.cur(),
                sp_sync_loop(toks, self.cur() as int) == sp_sync(toks, c0),
            decreases rem(toks.len() as int, self.cur() as int),
        {
            if *self.previous().token_type() == TokenType::SEMICOLON {
                return;
            }
            let k = *self.peek().token_type();
            match k {
                TokenType::CLASS => return,
                TokenType::FUN => return,
                TokenType::VAR => return,
                TokenType::FOR => return,
                TokenType::IF => return,
                TokenType::WHILE => return,
                TokenType::PRINT => return,
                TokenType::RETURN => return,
                _ => {
                    self.advance();
                },
            }
        }
    }
}

} // verus!
