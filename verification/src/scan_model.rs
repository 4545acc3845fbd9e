//! The mathematical model of scanning: a recursive function over the
//! character sequence of the source that yields the token sequence, the
//! diagnostics, and the final line count. The executable scanner is proved
//! to produce exactly this model's result.

use crate::object::ObjectV;
use crate::token::TokenV;
use crate::token_type::TokenType;
use vstd::prelude::*;

verus! {

/// Whether `c` is a decimal digit.
pub open spec fn is_digit_char(c: char) -> bool {
    48 <= c as u32 && c as u32 <= 57
}

/// Whether `c` is an ASCII letter.
pub open spec fn is_ascii_letter(c: char) -> bool {
    (97 <= c as u32 && c as u32 <= 122) || (65 <= c as u32 && c as u32 <= 90)
}

/// Whether `c` has the Unicode `Alphabetic` property, as
/// `char::is_alphabetic` decides it. Only consulted beyond ASCII; within
/// ASCII the alphabetic characters are exactly the letters.
pub uninterp spec fn char_alphabetic(c: char) -> bool;

/// Whether `c` can begin an identifier: alphabetic or an underscore.
/// Within ASCII the alphabetic characters are exactly the letters; beyond
/// ASCII the Unicode `Alphabetic` property decides.
pub open spec fn is_alpha_char(c: char) -> bool {
    if (c as u32) < 128 {
        is_ascii_letter(c) || c == '_'
    } else {
        char_alphabetic(c)
    }
}

/// Whether `c` can continue an identifier: alphabetic, digit or underscore.
pub open spec fn is_ident_char(c: char) -> bool {
    is_alpha_char(c) || is_digit_char(c)
}

/// The number of characters from `j` (inclusive) up to the next newline or
/// the end of the source: the extent of a line comment's body.
pub open spec fn comment_len(src: Seq<char>, j: int) -> nat
    decreases src.len() - j,
{
    if j < 0 || j >= src.len() || src[j] == '\n' {
        0
    } else {
        1 + comment_len(src, j + 1)
    }
}

/// The number of characters from `j` (inclusive) up to the next double
/// quote or the end of the source: the extent of a string literal's body.
pub open spec fn str_body_len(src: Seq<char>, j: int) -> nat
    decreases src.len() - j,
{
    if j < 0 || j >= src.len() || src[j] == '"' {
        0
    } else {
        1 + str_body_len(src, j + 1)
    }
}

/// The number of consecutive decimal digits starting at `j`.
pub open spec fn digit_run(src: Seq<char>, j: int) -> nat
    decreases src.len() - j,
{
    if j < 0 || j >= src.len() || !is_digit_char(src[j]) {
        0
    } else {
        1 + digit_run(src, j + 1)
    }
}

/// The number of consecutive identifier characters starting at `j`.
pub open spec fn ident_run(src: Seq<char>, j: int) -> nat
    decreases src.len() - j,
{
    if j < 0 || j >= src.len() || !is_ident_char(src[j]) {
        0
    } else {
        1 + ident_run(src, j + 1)
    }
}

/// The number of newline characters in `src` in the range `[a, b)`.
pub open spec fn nl_count(src: Seq<char>, a: int, b: int) -> nat
    decreases b - a,
{
    if a >= b {
        0
    } else {
        nl_count(src, a, b - 1) + if 0 <= b - 1 < src.len() && src[b - 1] == '\n' {
            1nat
        } else {
            0nat
        }
    }
}

/// The keyword a lexeme classifies as, or `IDENTIFIER` when it matches no
/// entry of the fixed keyword table.
pub open spec fn keyword_spec(s: Seq<char>) -> TokenType {
    if s == "and"@ {
        TokenType::AND
    } else if s == "class"@ {
        TokenType::CLASS
    } else if s == "else"@ {
        TokenType::ELSE
    } else if s == "false"@ {
        TokenType::FALSE
    } else if s == "for"@ {
        TokenType::FOR
    } else if s == "fun"@ {
        TokenType::FUN
    } else if s == "if"@ {
        TokenType::IF
    } else if s == "nil"@ {
        TokenType::NIL
    } else if s == "or"@ {
        TokenType::OR
    } else if s == "print"@ {
        TokenType::PRINT
    } else if s == "return"@ {
        TokenType::RETURN
    } else if s == "super"@ {
        TokenType::SUPER
    } else if s == "this"@ {
        TokenType::THIS
    } else if s == "true"@ {
        TokenType::TRUE
    } else if s == "var"@ {
        TokenType::VAR
    } else if s == "while"@ {
        TokenType::WHILE
    } else {
        TokenType::IDENTIFIER
    }
}

/// One scanned token together with the character range it was scanned from.
pub struct RichTok {
    pub token: TokenV,
    pub start: int,
    pub end: int,
}

/// One scanner diagnostic: a source line and a message.
pub struct DiagV {
    pub line: nat,
    pub message: Seq<char>,
}

/// The effect of scanning one lexeme starting at some position: how many
/// characters beyond the first are consumed, at most one token, at most one
/// diagnostic, and the line counter after the lexeme.
pub struct Step {
    pub ext: nat,
    pub tok: Option<RichTok>,
    pub diag: Option<DiagV>,
    pub line2: nat,
}

/// Everything scanning emits from some position to the end of the source.
pub struct ScanOut {
    pub toks: Seq<RichTok>,
    pub diags: Seq<DiagV>,
    pub end_line: nat,
}

/// A step that emits one single-character token of kind `kind`.
pub open spec fn punct_step(src: Seq<char>, i: int, line: nat, kind: TokenType) -> Step {
    Step {
        ext: 0,
        tok: Some(
            RichTok {
                token: TokenV { token_type: kind, lexeme: src.subrange(i, i + 1), literal: None, line },
                start: i,
                end: i + 1,
            },
        ),
        diag: None,
        line2: line,
    }
}

/// A step at a character that merges with a following `=` into a
/// two-character operator, or stands alone otherwise.
pub open spec fn two_char_step(
    src: Seq<char>,
    i: int,
    line: nat,
    long_kind: TokenType,
    short_kind: TokenType,
) -> Step {
    if i + 1 < src.len() && src[i + 1] == '=' {
        Step {
            ext: 1,
            tok: Some(
                RichTok {
                    token: TokenV {
                        token_type: long_kind,
                        lexeme: src.subrange(i, i + 2),
                        literal: None,
                        line,
                    },
                    start: i,
                    end: i + 2,
                },
            ),
            diag: None,
            line2: line,
        }
    } else {
        punct_step(src, i, line, short_kind)
    }
}

/// A step at a double quote: a string literal, or an unterminated-string
/// diagnostic when no closing quote follows. The token's line is the line
/// its opening quote stands on; embedded newlines advance the line counter
/// for what follows.
pub open spec fn string_step(src: Seq<char>, i: int, line: nat) -> Step {
    let b = str_body_len(src, i + 1) as int;
    if i + 1 + b < src.len() {
        Step {
            ext: (b + 1) as nat,
            tok: Some(
                RichTok {
                    token: TokenV {
                        token_type: TokenType::STRING,
                        lexeme: src.subrange(i, i + b + 2),
                        literal: Some(ObjectV::Str(src.subrange(i + 1, i + 1 + b))),
                        line,
                    },
                    start: i,
                    end: i + b + 2,
                },
            ),
            diag: None,
            line2: line + nl_count(src, i + 1, i + 1 + b),
        }
    } else {
        Step {
            ext: (src.len() - i - 1) as nat,
            tok: None,
            diag: Some(
                DiagV {
                    line: line + nl_count(src, i + 1, src.len() as int),
                    message: "Unterminated string"@,
                },
            ),
            line2: line + nl_count(src, i + 1, src.len() as int),
        }
    }
}

/// The total character count of a number literal starting at `i`: a digit
/// run, and a decimal point with a second digit run only when at least one
/// digit follows the point.
pub open spec fn number_total(src: Seq<char>, i: int) -> int {
    let w = digit_run(src, i) as int;
    if i + w < src.len() && src[i + w] == '.' && i + w + 1 < src.len() && is_digit_char(
        src[i + w + 1],
    ) {
        w + 1 + digit_run(src, i + w + 1) as int
    } else {
        w
    }
}

/// A step at a digit: one `NUMBER` token carrying its digit text.
pub open spec fn number_step(src: Seq<char>, i: int, line: nat) -> Step {
    let t = number_total(src, i);
    Step {
        ext: (t - 1) as nat,
        tok: Some(
            RichTok {
                token: TokenV {
                    token_type: TokenType::NUMBER,
                    lexeme: src.subrange(i, i + t),
                    literal: Some(ObjectV::Num(src.subrange(i, i + t))),
                    line,
                },
                start: i,
                end: i + t,
            },
        ),
        diag: None,
        line2: line,
    }
}

/// A step at an identifier head: the identifier run, classified against the
/// keyword table.
pub open spec fn ident_step(src: Seq<char>, i: int, line: nat) -> Step {
    let w = ident_run(src, i) as int;
    Step {
        ext: (w - 1) as nat,
        tok: Some(
            RichTok {
                token: TokenV {
                    token_type: keyword_spec(src.subrange(i, i + w)),
                    lexeme: src.subrange(i, i + w),
                    literal: None,
                    line,
                },
                start: i,
                end: i + w,
            },
        ),
        diag: None,
        line2: line,
    }
}

/// The effect of scanning the single lexeme that starts at position `i`
/// (which must be in range), with the line counter at `line`.
pub open spec fn scan_step(src: Seq<char>, i: int, line: nat) -> Step {
    let c = src[i];
    if c == '(' {
        punct_step(src, i, line, TokenType::LEFT_PAREN)
    } else if c == ')' {
        punct_step(src, i, line, TokenType::RIGHT_PAREN)
    } else if c == '{' {
        punct_step(src, i, line, TokenType::LEFT_BRACE)
    } else if c == '}' {
        punct_step(src, i, line, TokenType::RIGHT_BRACE)
    } else if c == ',' {
        punct_step(src, i, line, TokenType::COMMA)
    } else if c == '.' {
        punct_step(src, i, line, TokenType::DOT)
    } else if c == '-' {
        punct_step(src, i, line, TokenType::MINUS)
    } else if c == '+' {
        punct_step(src, i, line, TokenType::PLUS)
    } else if c == ';' {
        punct_step(src, i, line, TokenType::SEMICOLON)
    } else if c == '*' {
        punct_step(src, i, line, TokenType::STAR)
    } else if c == '!' {
        two_char_step(src, i, line, TokenType::BANG_EQUAL, TokenType::BANG)
    } else if c == '=' {
        two_char_step(src, i, line, TokenType::EQUAL_EQUAL, TokenType::EQUAL)
    } else if c == '<' {
        two_char_step(src, i, line, TokenType::LESS_EQUAL, TokenType::LESS)
    } else if c == '>' {
        two_char_step(src, i, line, TokenType::GREATER_EQUAL, TokenType::GREATER)
    } else if c == '/' {
        if i + 1 < src.len() && src[i + 1] == '/' {
            Step { ext: 1 + comment_len(src, i + 2), tok: None, diag: None, line2: line }
        } else {
            punct_step(src, i, line, TokenType::SLASH)
        }
    } else if c == ' ' || c == '\r' || c == '\t' {
        Step { ext: 0, tok: None, diag: None, line2: line }
    } else if c == '\n' {
        Step { ext: 0, tok: None, diag: None, line2: line + 1 }
    } else if c == '"' {
        string_step(src, i, line)
    } else if is_digit_char(c) {
        number_step(src, i, line)
    } else if is_alpha_char(c) {
        ident_step(src, i, line)
    } else {
        Step {
            ext: 0,
            tok: None,
            diag: Some(DiagV { line, message: "Unexpected character"@ }),
            line2: line,
        }
    }
}

/// The token a step emits, as a sequence of zero or one token models.
pub open spec fn tok_seq(step: Step) -> Seq<TokenV> {
    match step.tok {
        Some(rt) => seq![rt.token],
        None => Seq::empty(),
    }
}

/// The diagnostic a step emits, as a sequence of zero or one diagnostics.
pub open spec fn diag_seq(step: Step) -> Seq<DiagV> {
    match step.diag {
        Some(d) => seq![d],
        None => Seq::empty(),
    }
}

/// A range holds no more newlines than characters.
pub proof fn lemma_nl_count_le(src: Seq<char>, a: int, b: int)
    ensures
        nl_count(src, a, b) <= if b >= a {
            b - a
        } else {
            0
        },
    decreases b - a,
{
    if a < b {
        lemma_nl_count_le(src, a, b - 1);
    }
}

/// The position scanning stands at after the step taken at `i`, capped at
/// the end of the source.
pub open spec fn next_pos(src: Seq<char>, i: int, step: Step) -> int {
    if i + 1 + step.ext > src.len() {
        src.len() as int
    } else {
        i + 1 + step.ext
    }
}

/// Everything scanning emits from position `i` with the line counter at
/// `line`, up to the end of the source. The end-of-input token is not
/// included; [`scan_tokens_spec`] appends it.
pub open spec fn scan_from(src: Seq<char>, i: int, line: nat) -> ScanOut
    decreases src.len() - i,
{
    if i < 0 || i >= src.len() {
        ScanOut { toks: Seq::empty(), diags: Seq::empty(), end_line: line }
    } else {
        let step = scan_step(src, i, line);
        let rest = scan_from(src, next_pos(src, i, step), step.line2);
        ScanOut {
            toks: match step.tok {
                Some(t) => seq![t] + rest.toks,
                None => rest.toks,
            },
            diags: match step.diag {
                Some(d) => seq![d] + rest.diags,
                None => rest.diags,
            },
            end_line: rest.end_line,
        }
    }
}

/// The token models of the scanned tokens, positions dropped.
pub open spec fn plain_toks(out: ScanOut) -> Seq<TokenV> {
    out.toks.map(|k: int, rt: RichTok| rt.token)
}

/// The full token sequence scanning a source yields: every scanned token in
/// order, terminated by exactly one end-of-input token carrying the final
/// line count.
pub open spec fn scan_tokens_spec(src: Seq<char>) -> Seq<TokenV> {
    let out = scan_from(src, 0, 0);
    plain_toks(out).push(
        TokenV {
            token_type: TokenType::EOF,
            lexeme: Seq::empty(),
            literal: None,
            line: out.end_line,
        },
    )
}

/// The diagnostics scanning a source yields, in order.
pub open spec fn scan_diags_spec(src: Seq<char>) -> Seq<DiagV> {
    scan_from(src, 0, 0).diags
}

/// What holds of every token the scanner emits before the end-of-input
/// marker: it is never an end-of-input token itself, and number and string
/// tokens always carry their literal value.
pub open spec fn token_ok(t: TokenV) -> bool {
    &&& t.token_type != TokenType::EOF
    &&& (t.token_type == TokenType::NUMBER || t.token_type == TokenType::STRING) ==> t.literal
        is Some
}

/// Newline counts over adjacent ranges add up.
pub proof fn lemma_nl_count_add(src: Seq<char>, a: int, b: int, c: int)
    requires
        a <= b <= c,
    ensures
        nl_count(src, a, c) == nl_count(src, a, b) + nl_count(src, b, c),
    decreases c - b,
{
    if b < c {
        lemma_nl_count_add(src, a, b, c - 1);
    }
}

/// A range without newline characters counts zero newlines.
pub proof fn lemma_nl_count_zero(src: Seq<char>, a: int, b: int)
    requires
        forall|k: int| a <= k < b && 0 <= k < src.len() ==> src[k] != '\n',
    ensures
        nl_count(src, a, b) == 0,
    decreases b - a,
{
    if a < b {
        lemma_nl_count_zero(src, a, b - 1);
    }
}

/// The newline count of a single-character range.
pub proof fn lemma_nl_single(src: Seq<char>, a: int)
    ensures
        nl_count(src, a, a + 1) == if 0 <= a < src.len() && src[a] == '\n' {
            1nat
        } else {
            0nat
        },
{
    assert(nl_count(src, a, a) == 0);
}

/// The extent of a comment body: every character in it is a non-newline,
/// it ends at the end of the source or right before a newline, and it fits
/// inside the source.
pub proof fn lemma_comment_run(src: Seq<char>, j: int)
    requires
        0 <= j <= src.len(),
    ensures
        j + comment_len(src, j) <= src.len(),
        forall|k: int| j <= k < j + comment_len(src, j) ==> src[k] != '\n',
        j + comment_len(src, j) == src.len() || src[j + comment_len(src, j)] == '\n',
    decreases src.len() - j,
{
    if j < src.len() && src[j] != '\n' {
        lemma_comment_run(src, j + 1);
    }
}

/// A digit run consists of digits and fits inside the source.
pub proof fn lemma_digit_run(src: Seq<char>, j: int)
    requires
        0 <= j <= src.len(),
    ensures
        j + digit_run(src, j) <= src.len(),
        forall|k: int| j <= k < j + digit_run(src, j) ==> is_digit_char(src[k]),
    decreases src.len() - j,
{
    if j < src.len() && is_digit_char(src[j]) {
        lemma_digit_run(src, j + 1);
    }
}

/// An identifier run consists of identifier characters and fits inside the
/// source.
pub proof fn lemma_ident_run(src: Seq<char>, j: int)
    requires
        0 <= j <= src.len(),
    ensures
        j + ident_run(src, j) <= src.len(),
        forall|k: int| j <= k < j + ident_run(src, j) ==> is_ident_char(src[k]),
    decreases src.len() - j,
{
    if j < src.len() && is_ident_char(src[j]) {
        lemma_ident_run(src, j + 1);
    }
}

/// A string body consists of non-quote characters and fits inside the
/// source; when it ends inside the source, a quote follows it.
pub proof fn lemma_str_body_run(src: Seq<char>, j: int)
    requires
        0 <= j <= src.len(),
    ensures
        j + str_body_len(src, j) <= src.len(),
        forall|k: int| j <= k < j + str_body_len(src, j) ==> src[k] != '"',
        j + str_body_len(src, j) == src.len() || src[j + str_body_len(src, j)] == '"',
    decreases src.len() - j,
{
    if j < src.len() && src[j] != '"' {
        lemma_str_body_run(src, j + 1);
    }
}

/// Every token scanning emits satisfies [`token_ok`]: no end-of-input
/// token arises before the appended one, and literal tokens carry their
/// value.
pub proof fn lemma_scan_from_kinds(src: Seq<char>, i: int, line: nat)
    ensures
        forall|k: int|
            0 <= k < scan_from(src, i, line).toks.len() ==> token_ok(
                (#[trigger] scan_from(src, i, line).toks[k]).token,
            ),
    decreases src.len() - i,
{
    if 0 <= i < src.len() {
        let step = scan_step(src, i, line);
        let rest = scan_from(src, next_pos(src, i, step), step.line2);
        lemma_scan_from_kinds(src, next_pos(src, i, step), step.line2);
        assert(match step.tok {
            Some(rt) => token_ok(rt.token),
            None => true,
        });
        assert forall|k: int| 0 <= k < scan_from(src, i, line).toks.len() implies token_ok(
            (#[trigger] scan_from(src, i, line).toks[k]).token,
        ) by {
            if step.tok is Some {
                if k > 0 {
                    assert(scan_from(src, i, line).toks[k] == rest.toks[k - 1]);
                }
            } else {
                assert(scan_from(src, i, line).toks[k] == rest.toks[k]);
            }
        }
    }
}

/// The token sequence of a whole scan is non-empty, ends in exactly one
/// end-of-input token, and every earlier number or string token carries
/// its literal value.
pub proof fn lemma_scan_tokens_wf(src: Seq<char>)
    ensures
        scan_tokens_spec(src).len() >= 1,
        scan_tokens_spec(src).last().token_type == TokenType::EOF,
        scan_tokens_spec(src).last().lexeme == Seq::<char>::empty(),
        scan_tokens_spec(src).last().literal is None,
        forall|k: int|
            0 <= k < scan_tokens_spec(src).len() - 1 ==> token_ok(
                #[trigger] scan_tokens_spec(src)[k],
            ),
{
    lemma_scan_from_kinds(src, 0, 0);
    let out = scan_from(src, 0, 0);
    assert forall|k: int| 0 <= k < scan_tokens_spec(src).len() - 1 implies token_ok(
        #[trigger] scan_tokens_spec(src)[k],
    ) by {
        assert(scan_tokens_spec(src)[k] == out.toks[k].token);
    }
}

/// Whether `c` is one of the single-character punctuation marks whose
/// token needs no lookahead.
pub open spec fn is_single_punct(c: char) -> bool {
    c == '(' || c == ')' || c == '{' || c == '}' || c == ',' || c == '.' || c == '-' || c == '+'
        || c == ';' || c == '*'
}

/// The token kind of one single-character punctuation mark.
pub open spec fn punct_kind(c: char) -> TokenType {
    if c == '(' {
        TokenType::LEFT_PAREN
    } else if c == ')' {
        TokenType::RIGHT_PAREN
    } else if c == '{' {
        TokenType::LEFT_BRACE
    } else if c == '}' {
        TokenType::RIGHT_BRACE
    } else if c == ',' {
        TokenType::COMMA
    } else if c == '.' {
        TokenType::DOT
    } else if c == '-' {
        TokenType::MINUS
    } else if c == '+' {
        TokenType::PLUS
    } else if c == ';' {
        TokenType::SEMICOLON
    } else {
        TokenType::STAR
    }
}

/// Scanning a run of single-character punctuation yields one token per
/// character, in order, with no diagnostics and no line movement.
pub proof fn lemma_punct_from(src: Seq<char>, i: int, line: nat)
    requires
        0 <= i <= src.len(),
        forall|k: int| 0 <= k < src.len() ==> is_single_punct(#[trigger] src[k]),
    ensures
        scan_from(src, i, line).toks.len() == src.len() - i,
        forall|k: int|
            0 <= k < src.len() - i ==> (#[trigger] scan_from(src, i, line).toks[k]).token
                == (TokenV {
                token_type: punct_kind(src[i + k]),
                lexeme: src.subrange(i + k, i + k + 1),
                literal: None,
                line,
            }),
        scan_from(src, i, line).diags.len() == 0,
        scan_from(src, i, line).end_line == line,
    decreases src.len() - i,
{
    if i < src.len() {
        let step = scan_step(src, i, line);
        assert(is_single_punct(src[i]));
        assert(step == punct_step(src, i, line, punct_kind(src[i])));
        lemma_punct_from(src, i + 1, line);
        let rest = scan_from(src, i + 1, line);
        assert forall|k: int| 0 <= k < src.len() - i implies (#[trigger] scan_from(
            src,
            i,
            line,
        ).toks[k]).token == (TokenV {
            token_type: punct_kind(src[i + k]),
            lexeme: src.subrange(i + k, i + k + 1),
            literal: None,
            line,
        }) by {
            if k > 0 {
                assert(scan_from(src, i, line).toks[k] == rest.toks[k - 1]);
            }
        }
    }
}

/// For a source of single-character punctuation alone, the scanner's token
/// kind sequence matches the characters one for one, each token's lexeme is
/// its character and its line is 0, there are no diagnostics, and the
/// sequence ends in exactly one end-of-input token.
pub proof fn lemma_punct_scan(src: Seq<char>)
    requires
        forall|k: int| 0 <= k < src.len() ==> is_single_punct(#[trigger] src[k]),
    ensures
        scan_tokens_spec(src).len() == src.len() + 1,
        forall|k: int|
            0 <= k < src.len() ==> #[trigger] scan_tokens_spec(src)[k] == (TokenV {
                token_type: punct_kind(src[k]),
                lexeme: src.subrange(k, k + 1),
                literal: None,
                line: 0,
            }),
        scan_tokens_spec(src).last() == (TokenV {
            token_type: TokenType::EOF,
            lexeme: Seq::<char>::empty(),
            literal: None,
            line: 0,
        }),
        forall|k: int|
            0 <= k < src.len() ==> (#[trigger] scan_tokens_spec(src)[k]).token_type
                != TokenType::EOF,
        scan_diags_spec(src).len() == 0,
{
    lemma_punct_from(src, 0, 0);
    let out = scan_from(src, 0, 0);
    assert forall|k: int| 0 <= k < src.len() implies #[trigger] scan_tokens_spec(src)[k]
        == (TokenV {
        token_type: punct_kind(src[k]),
        lexeme: src.subrange(k, k + 1),
        literal: None,
        line: 0,
    }) by {
        assert(scan_tokens_spec(src)[k] == out.toks[k].token);
    }
    assert forall|k: int| 0 <= k < src.len() implies (#[trigger] scan_tokens_spec(
        src,
    )[k]).token_type != TokenType::EOF by {
        assert(is_single_punct(src[k]));
    }
}

/// A line comment running to the end of the input yields no token and no
/// diagnostic: the scan of `//` followed by any newline-free text is one
/// end-of-input token on line 0.
pub proof fn lemma_comment_to_end(c: Seq<char>)
    requires
        forall|k: int| 0 <= k < c.len() ==> #[trigger] c[k] != '\n',
    ensures
        scan_tokens_spec(seq!['/', '/'] + c) == seq![
            TokenV {
                token_type: TokenType::EOF,
                lexeme: Seq::<char>::empty(),
                literal: None,
                line: 0,
            },
        ],
        scan_diags_spec(seq!['/', '/'] + c).len() == 0,
{
    let src = seq!['/', '/'] + c;
    assert(src[0] == '/');
    assert(src[1] == '/');
    lemma_comment_run(src, 2);
    assert(comment_len(src, 2) == c.len()) by {
        if comment_len(src, 2) < c.len() {
            assert(src[2 + comment_len(src, 2) as int] == c[comment_len(src, 2) as int]);
        }
    }
    let step = scan_step(src, 0, 0);
    assert(step.ext == 1 + c.len());
    assert(next_pos(src, 0, step) == src.len());
    assert(scan_from(src, src.len() as int, 0).toks =~= Seq::<RichTok>::empty());
    assert(scan_from(src, src.len() as int, 0).diags =~= Seq::<DiagV>::empty());
    assert(scan_tokens_spec(src) =~= seq![
        TokenV {
            token_type: TokenType::EOF,
            lexeme: Seq::<char>::empty(),
            literal: None,
            line: 0,
        },
    ]);
}

/// A line comment running to the end of its line yields no token, no
/// diagnostic and no line movement: scanning `//`, a newline-free comment
/// body, and then the rest of the source emits exactly what scanning from
/// the newline on emits.
pub proof fn lemma_comment_to_eol(c: Seq<char>, tail: Seq<char>)
    requires
        forall|k: int| 0 <= k < c.len() ==> #[trigger] c[k] != '\n',
        tail.len() == 0 || tail[0] == '\n',
    ensures
        scan_from(seq!['/', '/'] + c + tail, 0, 0) == scan_from(
            seq!['/', '/'] + c + tail,
            2 + c.len() as int,
            0,
        ),
{
    let src = seq!['/', '/'] + c + tail;
    assert(src[0] == '/');
    assert(src[1] == '/');
    lemma_comment_run(src, 2);
    assert(comment_len(src, 2) == c.len()) by {
        if comment_len(src, 2) < c.len() {
            assert(src[2 + comment_len(src, 2) as int] == c[comment_len(src, 2) as int]);
        }
        if comment_len(src, 2) > c.len() {
            assert(src[2 + c.len() as int] == tail[0]);
        }
    }
    let step = scan_step(src, 0, 0);
    assert(step.ext == 1 + c.len());
    assert(next_pos(src, 0, step) == 2 + c.len() as int);
}

/// Every scanned token's `line` is the number of newline characters
/// strictly before the token's first character, its lexeme is exactly the
/// source text of its range, and the ranges lie inside the source; the
/// final line count is the newline count of the whole source.
pub proof fn lemma_scan_from_lines(src: Seq<char>, i: int, line: nat)
    requires
        0 <= i <= src.len(),
        line == nl_count(src, 0, i),
    ensures
        forall|k: int|
            0 <= k < scan_from(src, i, line).toks.len() ==> {
                let rt = #[trigger] scan_from(src, i, line).toks[k];
                &&& i <= rt.start < rt.end <= src.len()
                &&& rt.token.lexeme == src.subrange(rt.start, rt.end)
                &&& rt.token.line == nl_count(src, 0, rt.start)
            },
        scan_from(src, i, line).end_line == nl_count(src, 0, src.len() as int),
    decreases src.len() - i,
{
    if i < src.len() {
        let step = scan_step(src, i, line);
        let next = next_pos(src, i, step);
        lemma_comment_run(src, if i + 2 <= src.len() {
            i + 2
        } else {
            src.len() as int
        });
        lemma_digit_run(src, i);
        lemma_ident_run(src, i);
        lemma_str_body_run(src, i + 1);
        lemma_digit_run(src, i);
        if is_digit_char(src[i]) && i + digit_run(src, i) + 1 <= src.len() {
            lemma_digit_run(src, i + digit_run(src, i) + 1);
        }
        assert(i < next <= src.len());
        // the line counter after the step counts the newlines before `next`
        assert(step.line2 == nl_count(src, 0, next)) by {
            lemma_nl_count_add(src, 0, i, next);
            lemma_nl_single(src, i);
            if src[i] == '\n' {
                assert(nl_count(src, i, next) == 1);
            } else if src[i] == '"' {
                let b = str_body_len(src, i + 1) as int;
                lemma_nl_count_add(src, i, i + 1, next);
                if i + 1 + b < src.len() {
                    lemma_nl_count_add(src, i + 1, i + 1 + b, next);
                    lemma_nl_count_zero(src, i + 1 + b, next);
                }
            } else {
                lemma_nl_count_zero(src, i, next);
            }
        }
        let rest = scan_from(src, next, step.line2);
        lemma_scan_from_lines(src, next, step.line2);
        assert(match step.tok {
            Some(rt) => {
                &&& i <= rt.start < rt.end <= src.len()
                &&& rt.token.lexeme == src.subrange(rt.start, rt.end)
                &&& rt.token.line == nl_count(src, 0, rt.start)
            },
            None => true,
        });
        assert forall|k: int| 0 <= k < scan_from(src, i, line).toks.len() implies {
            let rt = #[trigger] scan_from(src, i, line).toks[k];
            &&& i <= rt.start < rt.end <= src.len()
            &&& rt.token.lexeme == src.subrange(rt.start, rt.end)
            &&& rt.token.line == nl_count(src, 0, rt.start)
        } by {
            if step.tok is Some {
                if k > 0 {
                    assert(scan_from(src, i, line).toks[k] == rest.toks[k - 1]);
                }
            } else {
                assert(scan_from(src, i, line).toks[k] == rest.toks[k]);
            }
        }
    }
}

/// A token's reported line equals the count of newline characters strictly
/// before its first character, for every token of every source; the
/// end-of-input token reports the newline count of the whole source.
pub proof fn lemma_token_lines(src: Seq<char>)
    ensures
        forall|k: int|
            0 <= k < scan_from(src, 0, 0).toks.len() ==> {
                let rt = #[trigger] scan_from(src, 0, 0).toks[k];
                &&& 0 <= rt.start < rt.end <= src.len()
                &&& rt.token.lexeme == src.subrange(rt.start, rt.end)
                &&& rt.token.line == nl_count(src, 0, rt.start)
            },
        scan_tokens_spec(src).last().line == nl_count(src, 0, src.len() as int),
{
    lemma_scan_from_lines(src, 0, 0);
}

} // verus!
