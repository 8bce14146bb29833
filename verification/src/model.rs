//! The mathematical model of scanning: a recursive specification that maps a
//! source text (a sequence of characters) to the token sequence, the
//! diagnostics, and the final line count that scanning it produces. The
//! executable scanner is proved to agree with this model step by step.

use vstd::prelude::*;

use crate::token::LiteralView;
use crate::token::TokenView;
use crate::token_type::TokenType;

verus! {

/// A lexical error, as a mathematical value: the offending character (for an
/// unexpected character) and the 1-based source line it was discovered on.
pub enum ErrorView {
    UnexpectedCharacter { ch: char, line: int },
    UnterminatedString { line: int },
}

/// A token of the model together with the half-open interval
/// `[start, end)` of source offsets its lexeme was recognized from.
pub struct TokenSpan {
    pub token: TokenView,
    pub start: int,
    pub end: int,
}

/// What one dispatch step of the scanner does: where the cursor lands, the
/// line counter after the step, and the token or error the step produces.
pub struct StepModel {
    pub next: int,
    pub line: int,
    pub token: Option<TokenSpan>,
    pub error: Option<ErrorView>,
}

/// The result of scanning from some position to the end of the source:
/// the tokens and errors produced, in order, and the final line counter.
pub struct ScanModel {
    pub tokens: Seq<TokenSpan>,
    pub errors: Seq<ErrorView>,
    pub line: int,
}

/// ASCII decimal digit.
pub open spec fn is_digit_char(c: char) -> bool {
    ('0' as u32) <= (c as u32) && (c as u32) <= ('9' as u32)
}

/// The classification of a character that alone forms a token, if it does.
pub open spec fn punct_type(c: char) -> Option<TokenType> {
    if c == '(' {
        Some(TokenType::LeftParen)
    } else if c == ')' {
        Some(TokenType::RightParen)
    } else if c == '{' {
        Some(TokenType::LeftBrace)
    } else if c == '}' {
        Some(TokenType::RightBrace)
    } else if c == ',' {
        Some(TokenType::Comma)
    } else if c == '.' {
        Some(TokenType::Dot)
    } else if c == '-' {
        Some(TokenType::Minus)
    } else if c == '+' {
        Some(TokenType::Plus)
    } else if c == ';' {
        Some(TokenType::Semicolon)
    } else if c == '*' {
        Some(TokenType::Star)
    } else {
        None
    }
}

/// Whether `c` opens a one-or-two-character operator whose two-character
/// form is `c` followed by `'='`.
pub open spec fn is_two_char_start(c: char) -> bool {
    c == '!' || c == '=' || c == '<' || c == '>'
}

/// The classification of the one-character operator `c`.
pub open spec fn one_char_type(c: char) -> TokenType {
    if c == '!' {
        TokenType::Bang
    } else if c == '=' {
        TokenType::Equal
    } else if c == '<' {
        TokenType::Less
    } else {
        TokenType::Greater
    }
}

/// The classification of the two-character operator `c` followed by `'='`.
pub open spec fn two_char_type(c: char) -> TokenType {
    if c == '!' {
        TokenType::BangEqual
    } else if c == '=' {
        TokenType::EqualEqual
    } else if c == '<' {
        TokenType::LessEqual
    } else {
        TokenType::GreaterEqual
    }
}

/// The first offset at or after `i` holding a newline, or the length of the
/// source if there is none: where a line comment opened before `i` ends.
pub open spec fn comment_end(s: Seq<char>, i: int) -> int
    decreases s.len() - i,
{
    if i < 0 || i >= s.len() || s[i] == '\n' {
        i
    } else {
        comment_end(s, i + 1)
    }
}

/// The first offset at or after `i` holding a closing quote, or the length
/// of the source if there is none: where the body of a string literal whose
/// opening quote stands before `i` ends.
pub open spec fn string_end(s: Seq<char>, i: int) -> int
    decreases s.len() - i,
{
    if i < 0 || i >= s.len() || s[i] == '"' {
        i
    } else {
        string_end(s, i + 1)
    }
}

/// The first offset at or after `i` holding a character that is not an ASCII
/// decimal digit, or the length of the source.
pub open spec fn digits_end(s: Seq<char>, i: int) -> int
    decreases s.len() - i,
{
    if i < 0 || i >= s.len() || !is_digit_char(s[i]) {
        i
    } else {
        digits_end(s, i + 1)
    }
}

/// How many offsets in `[from, to)` hold a newline.
pub open spec fn newline_count(s: Seq<char>, from: int, to: int) -> int
    decreases to - from,
{
    if from >= to {
        0
    } else {
        newline_count(s, from, to - 1) + (if s[to - 1] == '\n' {
            1int
        } else {
            0int
        })
    }
}

/// A step that lands at `next` with line counter `line` and emits the token
/// recognized from `[start, end)` of classification `ty`, stamped with the
/// line at emission, carrying `literal`.
pub open spec fn emit(
    s: Seq<char>,
    start: int,
    end: int,
    line: int,
    ty: TokenType,
    literal: LiteralView,
) -> StepModel {
    StepModel {
        next: end,
        line,
        token: Some(
            TokenSpan {
                token: TokenView { token_type: ty, lexeme: s.subrange(start, end), line, literal },
                start,
                end,
            },
        ),
        error: None,
    }
}

/// A step that consumes up to `next` and emits nothing.
pub open spec fn skip(next: int, line: int) -> StepModel {
    StepModel { next, line, token: None, error: None }
}

/// One- vs two-character operator disambiguation at `pos`: the two-character
/// form is greedily preferred exactly when the next character is `'='`.
pub open spec fn two_char_step(s: Seq<char>, pos: int, line: int) -> StepModel {
    if pos + 1 < s.len() && s[pos + 1] == '=' {
        emit(s, pos, pos + 2, line, two_char_type(s[pos]), LiteralView::Null)
    } else {
        emit(s, pos, pos + 1, line, one_char_type(s[pos]), LiteralView::Null)
    }
}

/// A `'/'` at `pos`: a second `'/'` opens a line comment that is consumed to
/// the next newline (exclusive) without emitting; otherwise a slash token.
pub open spec fn slash_step(s: Seq<char>, pos: int, line: int) -> StepModel {
    if pos + 1 < s.len() && s[pos + 1] == '/' {
        skip(comment_end(s, pos + 2), line)
    } else {
        emit(s, pos, pos + 1, line, TokenType::Slash, LiteralView::Null)
    }
}

/// A `'"'` at `pos`: the body runs to the next closing quote, newlines inside
/// it counting toward the line counter. If the quote is never closed, the
/// partial literal is discarded and an unterminated-string error is produced;
/// otherwise a string token whose lexeme includes both quotes and whose
/// literal text excludes them, stamped with the line at emission.
pub open spec fn string_step(s: Seq<char>, pos: int, line: int) -> StepModel {
    let e = string_end(s, pos + 1);
    let line2 = line + newline_count(s, pos + 1, e);
    if e >= s.len() {
        StepModel {
            next: e,
            line: line2,
            token: None,
            error: Some(ErrorView::UnterminatedString { line: line2 }),
        }
    } else {
        emit(
            s,
            pos,
            e + 1,
            line2,
            TokenType::StringLit,
            LiteralView::Text(s.subrange(pos + 1, e)),
        )
    }
}

/// Where the number literal opened by the digit at `pos` ends: the run of
/// digits, extended past a decimal point only when a digit follows it.
pub open spec fn number_end(s: Seq<char>, pos: int) -> int {
    let d = digits_end(s, pos + 1);
    if d < s.len() && s[d] == '.' && d + 1 < s.len() && is_digit_char(s[d + 1]) {
        digits_end(s, d + 2)
    } else {
        d
    }
}

/// A digit at `pos`: a number token whose literal carries the exact digit
/// text of its lexeme.
pub open spec fn number_step(s: Seq<char>, pos: int, line: int) -> StepModel {
    let e = number_end(s, pos);
    emit(s, pos, e, line, TokenType::Number, LiteralView::Number(s.subrange(pos, e)))
}

/// One dispatch step of the scanner at position `pos` of `s` with line
/// counter `line`: consume one lexeme's worth of characters and classify it,
/// or consume whitespace, a newline, or a comment without emitting, or skip
/// one unexpected character with an error.
pub open spec fn scan_step(s: Seq<char>, pos: int, line: int) -> StepModel
    recommends
        0 <= pos < s.len(),
{
    let c = s[pos];
    match punct_type(c) {
        Some(ty) => emit(s, pos, pos + 1, line, ty, LiteralView::Null),
        None => if is_two_char_start(c) {
            two_char_step(s, pos, line)
        } else if c == '/' {
            slash_step(s, pos, line)
        } else if c == ' ' || c == '\r' || c == '\t' {
            skip(pos + 1, line)
        } else if c == '\n' {
            skip(pos + 1, line + 1)
        } else if c == '"' {
            string_step(s, pos, line)
        } else if is_digit_char(c) {
            number_step(s, pos, line)
        } else {
            StepModel {
                next: pos + 1,
                line,
                token: None,
                error: Some(ErrorView::UnexpectedCharacter { ch: c, line }),
            }
        },
    }
}

pub proof fn lemma_comment_end_bounds(s: Seq<char>, i: int)
    requires
        0 <= i <= s.len(),
    ensures
        i <= comment_end(s, i) <= s.len(),
    decreases s.len() - i,
{
    if !(i >= s.len() || s[i] == '\n') {
        lemma_comment_end_bounds(s, i + 1);
    }
}

pub proof fn lemma_string_end_bounds(s: Seq<char>, i: int)
    requires
        0 <= i <= s.len(),
    ensures
        i <= string_end(s, i) <= s.len(),
        string_end(s, i) < s.len() ==> s[string_end(s, i)] == '"',
    decreases s.len() - i,
{
    if !(i >= s.len() || s[i] == '"') {
        lemma_string_end_bounds(s, i + 1);
    }
}

pub proof fn lemma_digits_end_bounds(s: Seq<char>, i: int)
    requires
        0 <= i <= s.len(),
    ensures
        i <= digits_end(s, i) <= s.len(),
    decreases s.len() - i,
{
    if !(i >= s.len() || !is_digit_char(s[i])) {
        lemma_digits_end_bounds(s, i + 1);
    }
}

/// Every dispatch step consumes at least one character and never runs past
/// the end of the source.
pub proof fn lemma_scan_step_bounds(s: Seq<char>, pos: int, line: int)
    requires
        0 <= pos < s.len(),
    ensures
        pos < scan_step(s, pos, line).next <= s.len(),
{
    let c = s[pos];
    if punct_type(c) is Some {
    } else if is_two_char_start(c) {
    } else if c == '/' {
        if pos + 1 < s.len() && s[pos + 1] == '/' {
            lemma_comment_end_bounds(s, pos + 2);
        }
    } else if c == '"' {
        lemma_string_end_bounds(s, pos + 1);
    } else if is_digit_char(c) {
        lemma_digits_end_bounds(s, pos + 1);
        let d = digits_end(s, pos + 1);
        if d < s.len() && s[d] == '.' && d + 1 < s.len() && is_digit_char(s[d + 1]) {
            lemma_digits_end_bounds(s, d + 2);
        }
    }
}

/// The token or error of one step, as the sequence it contributes to the
/// scan's output.
pub open spec fn opt_seq<A>(x: Option<A>) -> Seq<A> {
    match x {
        Some(a) => seq![a],
        None => Seq::empty(),
    }
}

/// Scanning from position `pos` with line counter `line` to the end of the
/// source: the dispatch step at `pos`, then the rest. The terminal token is
/// not part of this; see [`scan_spec`].
pub open spec fn scan_from(s: Seq<char>, pos: int, line: int) -> ScanModel
    decreases s.len() - pos
        when 0 <= pos
{
    if pos >= s.len() {
        ScanModel { tokens: Seq::empty(), errors: Seq::empty(), line }
    } else {
        proof {
            lemma_scan_step_bounds(s, pos, line);
        }
        let st = scan_step(s, pos, line);
        let rest = scan_from(s, st.next, st.line);
        ScanModel {
            tokens: opt_seq(st.token) + rest.tokens,
            errors: opt_seq(st.error) + rest.errors,
            line: rest.line,
        }
    }
}

/// The terminal end-of-input token: fixed lexeme `"EOF"`, the line reached at
/// the end of the source, no literal, and an empty span at the end.
pub open spec fn eof_span(s: Seq<char>, line: int) -> TokenSpan {
    TokenSpan {
        token: TokenView {
            token_type: TokenType::Eof,
            lexeme: "EOF"@,
            line,
            literal: LiteralView::Null,
        },
        start: s.len() as int,
        end: s.len() as int,
    }
}

/// The complete scan of a source text: every token the dispatch steps
/// produce, then the terminal end-of-input token, with every error in order
/// of discovery.
pub open spec fn scan_spec(s: Seq<char>) -> ScanModel {
    let m = scan_from(s, 0, 1);
    ScanModel { tokens: m.tokens.push(eof_span(s, m.line)), errors: m.errors, line: m.line }
}

/// The tokens of a sequence of spanned tokens, spans erased.
pub open spec fn span_views(ts: Seq<TokenSpan>) -> Seq<TokenView> {
    ts.map_values(|t: TokenSpan| t.token)
}

/// The token views of the complete scan of `s`: what `scan_tokens` returns.
pub open spec fn token_views(s: Seq<char>) -> Seq<TokenView> {
    span_views(scan_spec(s).tokens)
}

} // verus!
