//! The lexical scanner: one left-to-right pass over the source text with two
//! cursors (the start of the current lexeme and the read position) and a
//! line counter, producing the token sequence that [`crate::scan_model`]
//! describes. Scanning is total: unrecognized characters and unterminated
//! strings become line-tagged diagnostics and scanning continues.

use crate::line_error_spec;
use crate::object::Object;
use crate::scan_model::{
    char_alphabetic, comment_len, diag_seq, digit_run, ident_run, ident_step, is_alpha_char,
    is_digit_char, is_ident_char, keyword_spec, lemma_nl_count_le, next_pos, nl_count,
    number_step, number_total, plain_toks, scan_diags_spec, scan_from, scan_step,
    scan_tokens_spec, str_body_len, string_step, tok_seq, DiagV,
};
use crate::token::{Token, TokenV};
use crate::token_type::TokenType;
use vstd::prelude::*;

verus! {

/// Relies on `char::is_alphabetic`: whether the character has the Unicode
/// `Alphabetic` property. The result is a fixed function of the character;
/// within ASCII (code points below 128) exactly the letters `a`-`z` and
/// `A`-`Z` are alphabetic.
#[verifier::external_body]
fn is_alphabetic_char(c: char) -> (r: bool)
    ensures
        r == char_alphabetic(c),
        (97 <= (c as u32) && (c as u32) <= 122) || (65 <= (c as u32) && (c as u32) <= 90) ==> r,
        ((c as u32) < 128 && !((97 <= (c as u32) && (c as u32) <= 122) || (65 <= (c as u32) && (
        c as u32) <= 90))) ==> !r,
{
    c.is_alphabetic()
}

/// One scanner diagnostic, kept as a value so the caller decides how to
/// surface it; [`crate::line_error`] renders it in the diagnostic format.
#[derive(Debug, PartialEq)]
pub struct Diagnostic {
    pub line: usize,
    pub message: String,
}

impl View for Diagnostic {
    type V = DiagV;

    open spec fn view(&self) -> DiagV {
        DiagV { line: self.line as nat, message: self.message@ }
    }
}

impl DeepView for Diagnostic {
    type V = DiagV;

    open spec fn deep_view(&self) -> DiagV {
        self.view()
    }
}

impl Diagnostic {
    /// Renders the diagnostic in the line-tagged format.
    pub fn render(&self) -> (r: String)
        ensures
            r@ == line_error_spec(self@.line, self@.message),
    {
        crate::line_error(self.line, self.message.as_str())
    }
}

/// The scanner's state during its single pass: the source, the tokens and
/// diagnostics emitted so far, the two cursors and the line counter.
pub struct Scanner {
    source: String,
    tokens: Vec<Token>,
    start: usize,
    current: usize,
    line: usize,
    diagnostics: Vec<Diagnostic>,
}

impl Scanner {
    /// The character sequence of the source being scanned.
    pub closed spec fn src(self) -> Seq<char> {
        self.source@
    }

    /// The models of the tokens emitted so far.
    pub closed spec fn toks_deep(self) -> Seq<TokenV> {
        self.tokens.deep_view()
    }

    /// The models of the diagnostics emitted so far.
    pub closed spec fn diags_deep(self) -> Seq<DiagV> {
        self.diagnostics.deep_view()
    }

    /// The read cursor.
    pub closed spec fn cur(self) -> nat {
        self.current as nat
    }

    /// The line counter.
    pub closed spec fn ln(self) -> nat {
        self.line as nat
    }

    /// The cursors are within the source and the line counter cannot exceed
    /// the characters already read.
    pub closed spec fn wf(self) -> bool {
        &&& self.start <= self.current
        &&& self.current <= self.source@.len()
        &&& self.line <= self.current
    }

    /// A scanner that has not consumed anything nor emitted anything.
    pub closed spec fn is_initial(self) -> bool {
        &&& self.current == 0
        &&& self.line == 0
        &&& self.tokens@.len() == 0
        &&& self.diagnostics@.len() == 0
    }

    /// Builds a scanner over `source`, ready for its single pass.
    pub fn new(source: String) -> (r: Self)
        ensures
            r.src() == source@,
            r.is_initial(),
            r.wf(),
    {
        Scanner {
            source,
            tokens: Vec::new(),
            start: 0,
            current: 0,
            line: 0,
            diagnostics: Vec::new(),
        }
    }

    /// Whether the read cursor has passed the last character.
    fn is_at_end(&self) -> (r: bool)
        ensures
            r == (self.current >= self.source@.len()),
    {
        self.current >= self.source.as_str().unicode_len()
    }

    /// Consumes and returns the character at the read cursor.
    fn advance(&mut self) -> (c: char)
        requires
            old(self).current < old(self).source@.len(),
        ensures
            final(self).current == old(self).current + 1,
            c == old(self).source@[old(self).current as int],
            final(self).source == old(self).source,
            final(self).tokens == old(self).tokens,
            final(self).diagnostics == old(self).diagnostics,
            final(self).start == old(self).start,
            final(self).line == old(self).line,
    {
        let _len: usize = self.source.as_str().unicode_len();
        let c = self.source.as_str().get_char(self.current);
        self.current = self.current + 1;
        c
    }

    /// The character at the read cursor, or `'\0'` past the end; does not
    /// consume.
    fn peek(&self) -> (c: char)
        ensures
            c == if self.current < self.source@.len() {
                self.source@[self.current as int]
            } else {
                '\0'
            },
    {
        if self.is_at_end() {
            '\0'
        } else {
            self.source.as_str().get_char(self.current)
        }
    }

    /// The character one past the read cursor, or `'\0'` past the end.
    fn peek_next(&self) -> (c: char)
        ensures
            c == if self.current + 1 < self.source@.len() {
                self.source@[self.current + 1]
            } else {
                '\0'
            },
    {
        let len = self.source.as_str().unicode_len();
        if self.current < len && self.current + 1 < len {
            self.source.as_str().get_char(self.current + 1)
        } else {
            '\0'
        }
    }

    /// Consumes the character at the read cursor when it equals `expected`.
    fn match_char(&mut self, expected: char) -> (r: bool)
        ensures
            r == (old(self).current < old(self).source@.len() && old(self).source@[old(
                self,
            ).current as int] == expected),
            final(self).current == if r {
                old(self).current + 1
            } else {
                old(self).current as int
            },
            final(self).source == old(self).source,
            final(self).tokens == old(self).tokens,
            final(self).diagnostics == old(self).diagnostics,
            final(self).start == old(self).start,
            final(self).line == old(self).line,
    {
        let len = self.source.as_str().unicode_len();
        if self.current >= len {
            return false;
        }
        let character = self.source.as_str().get_char(self.current);
        if character != expected {
            return false;
        }
        self.current = self.current + 1;
        true
    }

    /// Whether `c` is a decimal digit.
    fn is_digit(&self, c: char) -> (r: bool)
        ensures
            r == is_digit_char(c),
    {
        let u = c as u32;
        48 <= u && u <= 57
    }

    /// Whether `c` can begin an identifier. Within ASCII these are exactly
    /// the letters and the underscore.
    fn is_alpha(&self, c: char) -> (r: bool)
        ensures
            r == is_alpha_char(c),
            ((c as u32) < 128 && !((97 <= (c as u32) && (c as u32) <= 122) || (65 <= (c as u32)
                && (c as u32) <= 90) || c == '_')) ==> !r,
    {
        is_alphabetic_char(c) || c == '_'
    }

    /// Whether `c` can continue an identifier. Within ASCII these are
    /// exactly the letters, the digits and the underscore.
    fn is_alpha_numeric(&self, c: char) -> (r: bool)
        ensures
            r == is_ident_char(c),
            ((c as u32) < 128 && !((97 <= (c as u32) && (c as u32) <= 122) || (65 <= (c as u32)
                && (c as u32) <= 90) || c == '_' || (48 <= (c as u32) && (c as u32) <= 57)))
                ==> !r,
    {
        self.is_alpha(c) || self.is_digit(c)
    }

    /// Emits a token without a literal value for the current lexeme.
    fn add_token(&mut self, token_type: TokenType)
        requires
            old(self).wf(),
        ensures
            final(self).wf(),
            final(self).tokens.deep_view() =~= old(self).tokens.deep_view() + seq![
                TokenV {
                    token_type,
                    lexeme: old(self).source@.subrange(
                        old(self).start as int,
                        old(self).current as int,
                    ),
                    literal: None,
                    line: old(self).line as nat,
                },
            ],
            final(self).source == old(self).source,
            final(self).diagnostics == old(self).diagnostics,
            final(self).start == old(self).start,
            final(self).current == old(self).current,
            final(self).line == old(self).line,
    {
        self.add_token_literal(token_type, None);
    }

    /// Emits a token for the current lexeme, carrying `literal`.
    fn add_token_literal(&mut self, token_type: TokenType, literal: Option<Object>)
        requires
            old(self).wf(),
        ensures
            final(self).wf(),
            final(self).tokens.deep_view() =~= old(self).tokens.deep_view() + seq![
                TokenV {
                    token_type,
                    lexeme: old(self).source@.subrange(
                        old(self).start as int,
                        old(self).current as int,
                    ),
                    literal: match literal {
                        Some(o) => Some(o@),
                        None => None,
                    },
                    line: old(self).line as nat,
                },
            ],
            final(self).source == old(self).source,
            final(self).diagnostics == old(self).diagnostics,
            final(self).start == old(self).start,
            final(self).current == old(self).current,
            final(self).line == old(self).line,
    {
        let text = self.source.as_str().substring_char(self.start, self.current).to_owned();
        let line = self.line;
        self.tokens.push(Token::new(token_type, text, literal, line));
    }

    /// Classifies a lexeme against the fixed keyword table.
    fn keywords(check: &str) -> (r: Option<TokenType>)
        ensures
            r == if keyword_spec(check@) == TokenType::IDENTIFIER {
                Option::<TokenType>::None
            } else {
                Option::<TokenType>::Some(keyword_spec(check@))
            },
    {
        if str_eq(check, "and") {
            Some(TokenType::AND)
        } else if str_eq(check, "class") {
            Some(TokenType::CLASS)
        } else if str_eq(check, "else") {
            Some(TokenType::ELSE)
        } else if str_eq(check, "false") {
            Some(TokenType::FALSE)
        } else if str_eq(check, "for") {
            Some(TokenType::FOR)
        } else if str_eq(check, "fun") {
            Some(TokenType::FUN)
        } else if str_eq(check, "if") {
            Some(TokenType::IF)
        } else if str_eq(check, "nil") {
            Some(TokenType::NIL)
        } else if str_eq(check, "or") {
            Some(TokenType::OR)
        } else if str_eq(check, "print") {
            Some(TokenType::PRINT)
        } else if str_eq(check, "return") {
            Some(TokenType::RETURN)
        } else if str_eq(check, "super") {
            Some(TokenType::SUPER)
        } else if str_eq(check, "this") {
            Some(TokenType::THIS)
        } else if str_eq(check, "true") {
            Some(TokenType::TRUE)
        } else if str_eq(check, "var") {
            Some(TokenType::VAR)
        } else if str_eq(check, "while") {
            Some(TokenType::WHILE)
        } else {
            None
        }
    }

    /// Scans the tail of an identifier or keyword; the head character has
    /// just been consumed.
    fn identifier(&mut self)
        requires
            old(self).wf(),
            old(self).current == old(self).start + 1,
            old(self).start < old(self).source@.len(),
            is_ident_char(old(self).source@[old(self).start as int]),
        ensures
            final(self).wf(),
            final(self).current == old(self).start + ident_run(
                old(self).source@,
                old(self).start as int,
            ),
            final(self).tokens.deep_view() =~= old(self).tokens.deep_view() + tok_seq(
                ident_step(old(self).source@, old(self).start as int, old(self).line as nat),
            ),
            final(self).source == old(self).source,
            final(self).diagnostics == old(self).diagnostics,
            final(self).start == old(self).start,
            final(self).line == old(self).line,
    {
        while self.is_alpha_numeric(self.peek())
            invariant
                self.wf(),
                self.source == old(self).source,
                self.tokens == old(self).tokens,
                self.diagnostics == old(self).diagnostics,
                self.start == old(self).start,
                self.line == old(self).line,
                old(self).start + 1 <= self.current,
                ident_run(self.source@, self.start as int) == (self.current - self.start) + ident_run(
                    self.source@,
                    self.current as int,
                ),
            decreases self.source@.len() - self.current,
        {
            self.advance();
        }
        proof {
            assert(ident_run(self.source@, self.current as int) == 0);
        }
        let text = self.source.as_str().substring_char(self.start, self.current).to_owned();
        let token_type = Self::keywords(text.as_str());
        let token_type = match token_type {
            Some(token_type) => token_type,
            None => TokenType::IDENTIFIER,
        };
        self.add_token(token_type);
    }

    /// Scans the tail of a number literal; the first digit has just been
    /// consumed. A decimal point is consumed only when at least one digit
    /// follows it.
    fn number(&mut self)
        requires
            old(self).wf(),
            old(self).current == old(self).start + 1,
            old(self).start < old(self).source@.len(),
            is_digit_char(old(self).source@[old(self).start as int]),
        ensures
            final(self).wf(),
            final(self).current == old(self).start + number_total(
                old(self).source@,
                old(self).start as int,
            ),
            final(self).tokens.deep_view() =~= old(self).tokens.deep_view() + tok_seq(
                number_step(old(self).source@, old(self).start as int, old(self).line as nat),
            ),
            final(self).source == old(self).source,
            final(self).diagnostics == old(self).diagnostics,
            final(self).start == old(self).start,
            final(self).line == old(self).line,
    {
        while self.is_digit(self.peek())
            invariant
                self.wf(),
                self.source == old(self).source,
                self.tokens == old(self).tokens,
                self.diagnostics == old(self).diagnostics,
                self.start == old(self).start,
                self.line == old(self).line,
                old(self).start + 1 <= self.current,
                digit_run(self.source@, self.start as int) == (self.current - self.start)
                    + digit_run(self.source@, self.current as int),
            decreases self.source@.len() - self.current,
        {
            self.advance();
        }
        let ghost w = digit_run(self.source@, self.start as int) as int;
        proof {
            assert(digit_run(self.source@, self.current as int) == 0);
            assert(self.current == self.start + w);
        }
        if self.peek() == '.' && self.is_digit(self.peek_next()) {
            self.advance();
            let ghost frac_start = self.current as int;
            while self.is_digit(self.peek())
                invariant
                    self.wf(),
                    self.source == old(self).source,
                    self.tokens == old(self).tokens,
                    self.diagnostics == old(self).diagnostics,
                    self.start == old(self).start,
                    self.line == old(self).line,
                    frac_start == old(self).start + w + 1,
                    frac_start <= self.current,
                    digit_run(self.source@, frac_start) == (self.current - frac_start) + digit_run(
                        self.source@,
                        self.current as int,
                    ),
                decreases self.source@.len() - self.current,
            {
                self.advance();
            }
            proof {
                assert(digit_run(self.source@, self.current as int) == 0);
            }
        }
        let value = self.source.as_str().substring_char(self.start, self.current).to_owned();
        self.add_token_literal(TokenType::NUMBER, Some(Object::Num(value)));
    }

    /// Scans the tail of a string literal; the opening quote has just been
    /// consumed. The token reports the line its opening quote stands on;
    /// embedded newlines advance the line counter. An unterminated string
    /// yields a diagnostic and no token.
    fn string(&mut self)
        requires
            old(self).wf(),
            old(self).current == old(self).start + 1,
            old(self).start < old(self).source@.len(),
            old(self).source@[old(self).start as int] == '"',
        ensures
            final(self).wf(),
            final(self).current == next_pos(
                old(self).source@,
                old(self).start as int,
                string_step(old(self).source@, old(self).start as int, old(self).line as nat),
            ),
            final(self).line == string_step(
                old(self).source@,
                old(self).start as int,
                old(self).line as nat,
            ).line2,
            final(self).tokens.deep_view() =~= old(self).tokens.deep_view() + tok_seq(
                string_step(old(self).source@, old(self).start as int, old(self).line as nat),
            ),
            final(self).diagnostics.deep_view() =~= old(self).diagnostics.deep_view() + diag_seq(
                string_step(old(self).source@, old(self).start as int, old(self).line as nat),
            ),
            final(self).source == old(self).source,
            final(self).start == old(self).start,
    {
        let start_line = self.line;
        let _len: usize = self.source.as_str().unicode_len();
        while self.peek() != '"' && !self.is_at_end()
            invariant
                self.wf(),
                self.source@.len() <= usize::MAX,
                self.source == old(self).source,
                self.tokens == old(self).tokens,
                self.diagnostics == old(self).diagnostics,
                self.start == old(self).start,
                start_line == old(self).line,
                old(self).start + 1 <= self.current,
                str_body_len(self.source@, self.start + 1) == (self.current - self.start - 1)
                    + str_body_len(self.source@, self.current as int),
                self.line == start_line + nl_count(
                    self.source@,
                    self.start + 1,
                    self.current as int,
                ),
            decreases self.source@.len() - self.current,
        {
            proof {
                lemma_nl_count_le(self.source@, self.start + 1, self.current as int);
            }
            if self.peek() == '\n' {
                self.line = self.line + 1;
            }
            self.advance();
        }
        let ghost b = str_body_len(old(self).source@, old(self).start + 1) as int;
        proof {
            assert(str_body_len(self.source@, self.current as int) == 0);
            assert(self.current == self.start + 1 + b);
        }
        if self.is_at_end() {
            let line = self.line;
            let message = String::from_str("Unterminated string");
            self.diagnostics.push(Diagnostic { line, message });
            proof {
                assert(self.diagnostics.deep_view() =~= old(self).diagnostics.deep_view()
                    + diag_seq(
                    string_step(old(self).source@, old(self).start as int, old(self).line as nat),
                ));
                assert(self.tokens.deep_view() =~= old(self).tokens.deep_view());
            }
            return;
        }
        self.advance();
        let value = self.source.as_str().substring_char(self.start + 1, self.current - 1).to_owned();
        let lexeme = self.source.as_str().substring_char(self.start, self.current).to_owned();
        let token = Token::new(TokenType::STRING, lexeme, Some(Object::Str(value)), start_line);
        self.tokens.push(token);
        proof {
            assert(self.tokens.deep_view() =~= old(self).tokens.deep_view() + tok_seq(
                string_step(old(self).source@, old(self).start as int, old(self).line as nat),
            ));
        }
    }

    /// Scans the single lexeme starting at the read cursor, emitting at most
    /// one token or one diagnostic, exactly as [`scan_step`] describes.
    fn scan_token(&mut self)
        requires
            old(self).wf(),
            old(self).start == old(self).current,
            old(self).current < old(self).source@.len(),
        ensures
            final(self).wf(),
            final(self).current == next_pos(
                old(self).source@,
                old(self).current as int,
                scan_step(old(self).source@, old(self).current as int, old(self).line as nat),
            ),
            old(self).current < final(self).current,
            final(self).line == scan_step(
                old(self).source@,
                old(self).current as int,
                old(self).line as nat,
            ).line2,
            final(self).tokens.deep_view() =~= old(self).tokens.deep_view() + tok_seq(
                scan_step(old(self).source@, old(self).current as int, old(self).line as nat),
            ),
            final(self).diagnostics.deep_view() =~= old(self).diagnostics.deep_view() + diag_seq(
                scan_step(old(self).source@, old(self).current as int, old(self).line as nat),
            ),
            final(self).source == old(self).source,
            final(self).start == old(self).start,
    {
        let ghost src = old(self).source@;
        let ghost i = old(self).current as int;
        let ghost line0 = old(self).line as nat;
        let c = self.advance();
        match c {
            '(' => self.add_token(TokenType::LEFT_PAREN),
            ')' => self.add_token(TokenType::RIGHT_PAREN),
            '{' => self.add_token(TokenType::LEFT_BRACE),
            '}' => self.add_token(TokenType::RIGHT_BRACE),
            ',' => self.add_token(TokenType::COMMA),
            '.' => self.add_token(TokenType::DOT),
            '-' => self.add_token(TokenType::MINUS),
            '+' => self.add_token(TokenType::PLUS),
            ';' => self.add_token(TokenType::SEMICOLON),
            '*' => self.add_token(TokenType::STAR),
            '!' => {
                if self.match_char('=') {
                    self.add_token(TokenType::BANG_EQUAL);
                } else {
                    self.add_token(TokenType::BANG);
                }
            },
            '=' => {
                if self.match_char('=') {
                    self.add_token(TokenType::EQUAL_EQUAL);
                } else {
                    self.add_token(TokenType::EQUAL);
                }
            },
            '<' => {
                if self.match_char('=') {
                    self.add_token(TokenType::LESS_EQUAL);
                } else {
                    self.add_token(TokenType::LESS);
                }
            },
            '>' => {
                if self.match_char('=') {
                    self.add_token(TokenType::GREATER_EQUAL);
                } else {
                    self.add_token(TokenType::GREATER);
                }
            },
            '/' => {
                if self.match_char('/') {
                    while self.peek() != '\n' && !self.is_at_end()
                        invariant
                            self.wf(),
                            self.source@ == src,
                            self.source == old(self).source,
                            self.tokens == old(self).tokens,
                            self.diagnostics == old(self).diagnostics,
                            self.start == old(self).start,
                            self.line == old(self).line,
                            i + 2 <= self.current,
                            comment_len(src, i + 2) == (self.current - (i + 2)) + comment_len(
                                src,
                                self.current as int,
                            ),
                        decreases self.source@.len() - self.current,
                    {
                        self.advance();
                    }
                    proof {
                        assert(comment_len(src, self.current as int) == 0);
                    }
                } else {
                    self.add_token(TokenType::SLASH);
                }
            },
            ' ' | '\r' | '\t' => {},
            '\n' => {
                self.line = self.line + 1;
            },
            '"' => self.string(),
            _ => {
                if self.is_digit(c) {
                    self.number();
                } else if self.is_alpha(c) {
                    self.identifier();
                } else {
                    let line = self.line;
                    let message = String::from_str("Unexpected character");
                    self.diagnostics.push(Diagnostic { line, message });
                    proof {
                        assert(self.diagnostics.deep_view() =~= old(self).diagnostics.deep_view()
                            + diag_seq(scan_step(src, i, line0)));
                    }
                }
            },
        }
    }

    /// Scans the whole source: repeatedly scans one lexeme until the source
    /// is exhausted, then appends exactly one end-of-input token carrying
    /// the final line count. On a fresh scanner the result is exactly
    /// [`scan_tokens_spec`] and the diagnostics are exactly
    /// [`scan_diags_spec`]; the returned sequence is always non-empty and
    /// ends in the end-of-input token.
    pub fn scan_tokens(&mut self) -> (r: Vec<Token>)
        requires
            old(self).wf(),
        ensures
            final(self).wf(),
            final(self).src() == old(self).src(),
            r.deep_view() =~= old(self).toks_deep() + plain_toks(
                scan_from(old(self).src(), old(self).cur() as int, old(self).ln()),
            ).push(
                TokenV {
                    token_type: TokenType::EOF,
                    lexeme: Seq::empty(),
                    literal: None,
                    line: scan_from(old(self).src(), old(self).cur() as int, old(self).ln()).end_line,
                },
            ),
            final(self).diags_deep() =~= old(self).diags_deep() + scan_from(
                old(self).src(),
                old(self).cur() as int,
                old(self).ln(),
            ).diags,
            old(self).is_initial() ==> r.deep_view() == scan_tokens_spec(old(self).src())
                && final(self).diags_deep() == scan_diags_spec(old(self).src()),
    {
        let ghost src = old(self).source@;
        while !self.is_at_end()
            invariant
                self.wf(),
                self.source == old(self).source,
                src == self.source@,
                self.tokens.deep_view() + plain_toks(
                    scan_from(src, self.current as int, self.line as nat),
                ) =~= old(self).tokens.deep_view() + plain_toks(
                    scan_from(src, old(self).current as int, old(self).line as nat),
                ),
                self.diagnostics.deep_view() + scan_from(
                    src,
                    self.current as int,
                    self.line as nat,
                ).diags =~= old(self).diagnostics.deep_view() + scan_from(
                    src,
                    old(self).current as int,
                    old(self).line as nat,
                ).diags,
                scan_from(src, self.current as int, self.line as nat).end_line == scan_from(
                    src,
                    old(self).current as int,
                    old(self).line as nat,
                ).end_line,
            decreases self.source@.len() - self.current,
        {
            let ghost pre = *self;
            self.start = self.current;
            self.scan_token();
            proof {
                let i = pre.current as int;
                let ln = pre.line as nat;
                let step = scan_step(src, i, ln);
                let rest = scan_from(src, next_pos(src, i, step), step.line2);
                assert(scan_from(src, i, ln).toks == match step.tok {
                    Some(t) => seq![t] + rest.toks,
                    None => rest.toks,
                });
                assert(plain_toks(scan_from(src, i, ln)) =~= tok_seq(step) + plain_toks(rest));
                assert(scan_from(src, i, ln).diags =~= diag_seq(step) + rest.diags);
                assert(self.tokens.deep_view() + plain_toks(rest) =~= pre.tokens.deep_view()
                    + plain_toks(scan_from(src, i, ln)));
                assert(self.diagnostics.deep_view() + rest.diags =~= pre.diagnostics.deep_view()
                    + scan_from(src, i, ln).diags);
            }
        }
        proof {
            assert(scan_from(src, self.current as int, self.line as nat).toks =~= Seq::<
                crate::scan_model::RichTok,
            >::empty());
            assert(plain_toks(scan_from(src, self.current as int, self.line as nat)) =~= Seq::<
                TokenV,
            >::empty());
        }
        proof {
            assert(self.tokens.deep_view() =~= old(self).tokens.deep_view() + plain_toks(
                scan_from(src, old(self).current as int, old(self).line as nat),
            ));
        }
        let ghost pre_push = self.tokens.deep_view();
        let line = self.line;
        self.tokens.push(Token::new(TokenType::EOF, String::new(), None, line));
        proof {
            assert(self.tokens.deep_view() =~= pre_push.push(
                TokenV {
                    token_type: TokenType::EOF,
                    lexeme: Seq::empty(),
                    literal: None,
                    line: line as nat,
                },
            ));
        }
        let r = self.tokens.clone();
        proof {
            assert(forall|k: int|
                0 <= k < r@.len() ==> #[trigger] r@[k]@ == self.tokens@[k]@) by {
                assert(forall|k: int|
                    0 <= k < r@.len() ==> vstd::pervasive::cloned::<Token>(
                        self.tokens@[k],
                        #[trigger] r@[k],
                    ));
            }
            assert(r.deep_view() =~= self.tokens.deep_view());
            assert(r.deep_view() =~= old(self).tokens.deep_view() + plain_toks(
                scan_from(src, old(self).current as int, old(self).line as nat),
            ).push(
                TokenV {
                    token_type: TokenType::EOF,
                    lexeme: Seq::empty(),
                    literal: None,
                    line: scan_from(src, old(self).current as int, old(self).line as nat).end_line,
                },
            ));
            if old(self).is_initial() {
                assert(r.deep_view() =~= scan_tokens_spec(src));
                assert(self.diagnostics.deep_view() =~= scan_diags_spec(src));
            }
        }
        r
    }

    /// The diagnostics emitted so far, in the order they arose.
    pub fn diagnostics(&self) -> (r: &Vec<Diagnostic>)
        ensures
            r.deep_view() == self.diags_deep(),
    {
        &self.diagnostics
    }
}

/// Character-by-character equality of two pieces of text.
fn str_eq(a: &str, b: &str) -> (r: bool)
    ensures
        r == (a@ == b@),
{
    let alen = a.unicode_len();
    let blen = b.unicode_len();
    if alen != blen {
        return false;
    }
    let mut i: usize = 0;
    while i < alen
        invariant
            i <= alen,
            alen == a@.len(),
            alen == b@.len(),
            forall|k: int| 0 <= k < i ==> a@[k] == b@[k],
        decreases alen - i,
    {
        if a.get_char(i) != b.get_char(i) {
            return false;
        }
        i = i + 1;
    }
    proof {
        assert(a@ =~= b@);
    }
    true
}

} // verus!
