use vstd::prelude::*;
use vstd::string::StrSliceExecFns;

use crate::model::ErrorView;
use crate::model::comment_end;
use crate::model::digits_end;
use crate::model::is_digit_char;
use crate::model::lemma_scan_step_bounds;
use crate::model::lemma_string_end_bounds;
use crate::model::newline_count;
use crate::model::number_end;
use crate::model::number_step;
use crate::model::opt_seq;
use crate::model::scan_from;
use crate::model::scan_spec;
use crate::model::scan_step;
use crate::model::span_views;
use crate::model::string_end;
use crate::model::string_step;
use crate::model::token_views;
use crate::token::Literal;
use crate::token::Token;
use crate::token_type::TokenType;

verus! {

/// A lexical error, recovered from locally: scanning never aborts because of
/// one. Each is tagged with the 1-based source line it was discovered on.
#[derive(Clone, Copy, Debug, PartialEq, Eq, Structural)]
pub enum ScanError {
    /// A character that matches no recognized lexical class; it is skipped
    /// and scanning continues immediately after it.
    UnexpectedCharacter { ch: char, line: usize },
    /// A string literal whose opening quote is never matched before
    /// end-of-input; the partial literal is discarded.
    UnterminatedString { line: usize },
}

impl View for ScanError {
    type V = ErrorView;

    open spec fn view(&self) -> ErrorView {
        match self {
            ScanError::UnexpectedCharacter { ch, line } => ErrorView::UnexpectedCharacter {
                ch: *ch,
                line: *line as int,
            },
            ScanError::UnterminatedString { line } => ErrorView::UnterminatedString {
                line: *line as int,
            },
        }
    }
}

impl DeepView for ScanError {
    type V = ErrorView;

    open spec fn deep_view(&self) -> ErrorView {
        self.view()
    }
}

/// What a whole scan returns to the caller: the finished token sequence and
/// every diagnostic discovered along the way, in order. A scan with lexical
/// errors still yields a usable token sequence; the caller can tell the two
/// outcomes apart by [`ScanOutcome::had_error`].
pub struct ScanOutcome {
    pub tokens: Vec<Token>,
    pub errors: Vec<ScanError>,
}

impl ScanOutcome {
    /// Whether at least one lexical error was discovered during the scan.
    pub fn had_error(&self) -> (r: bool)
        ensures
            r == (self.errors@.len() > 0),
    {
        self.errors.len() > 0
    }
}

/// The scanning engine: owns the source buffer and a cursor, and drives the
/// character-dispatch state machine that produces the token sequence.
///
/// A scanner is created once from a source text, consumed by
/// [`Scanner::scan_tokens`], and discarded; a fresh instance per source text
/// is the intended usage.
pub struct Scanner {
    source: String,
    len: usize,
    start: usize,
    current: usize,
    line: usize,
    tokens: Vec<Token>,
    errors: Vec<ScanError>,
}

impl Scanner {
    /// The source text this scanner was created from.
    pub closed spec fn src(self) -> Seq<char> {
        self.source@
    }

    /// The scanner's internal invariant: the cached length matches the
    /// source, the cursor stays inside it, and the line counter never
    /// exceeds one more than the number of characters consumed.
    pub closed spec fn wf(self) -> bool {
        &&& self.len == self.src().len()
        &&& self.src().len() < usize::MAX
        &&& self.start <= self.current <= self.len
        &&& 1 <= self.line <= self.current + 1
    }

    /// A scanner that has not consumed anything yet, as `new` returns it.
    pub closed spec fn fresh(self) -> bool {
        &&& self.current == 0
        &&& self.start == 0
        &&& self.line == 1
        &&& self.tokens@.len() == 0
        &&& self.errors@.len() == 0
    }

    /// Creates a scanner over `source`, with the cursor at the start and the
    /// line counter at 1. The length bound only rules out a text so large
    /// that a line counter could not be represented.
    pub fn new(source: String) -> (s: Scanner)
        requires
            source@.len() < usize::MAX,
        ensures
            s.wf(),
            s.fresh(),
            s.src() == source@,
    {
        let len = source.as_str().unicode_len();
        Scanner {
            source,
            len,
            start: 0,
            current: 0,
            line: 1,
            tokens: Vec::new(),
            errors: Vec::new(),
        }
    }

    /// True iff the cursor has consumed the whole source.
    fn is_at_end(&self) -> (r: bool)
        requires
            self.wf(),
        ensures
            r == (self.current >= self.src().len()),
    {
        self.current >= self.len
    }

    /// ASCII decimal digit.
    fn is_digit(c: char) -> (r: bool)
        ensures
            r == is_digit_char(c),
    {
        ('0' as u32) <= (c as u32) && (c as u32) <= ('9' as u32)
    }

    /// The character at the cursor without consuming it, or the sentinel
    /// null character at end-of-input.
    fn peek_token(&self) -> (c: char)
        requires
            self.wf(),
        ensures
            self.current < self.src().len() ==> c == self.src()[self.current as int],
            self.current >= self.src().len() ==> c == '\0',
    {
        if self.current >= self.len {
            '\0'
        } else {
            self.source.as_str().get_char(self.current)
        }
    }

    /// The character one past the cursor, or the sentinel null character if
    /// that position is at or past the end.
    fn peek_next_token(&self) -> (c: char)
        requires
            self.wf(),
        ensures
            self.current + 1 < self.src().len() ==> c == self.src()[self.current as int + 1],
            self.current + 1 >= self.src().len() ==> c == '\0',
    {
        if self.current + 1 >= self.len {
            '\0'
        } else {
            self.source.as_str().get_char(self.current + 1)
        }
    }

    /// Consumes and returns the character at the cursor. This is the only
    /// primitive that advances the cursor unconditionally.
    fn advance(&mut self) -> (c: char)
        requires
            old(self).wf(),
            old(self).current < old(self).src().len(),
        ensures
            final(self).wf(),
            c == old(self).src()[old(self).current as int],
            final(self).current == old(self).current + 1,
            final(self).source == old(self).source,
            final(self).len == old(self).len,
            final(self).start == old(self).start,
            final(self).line == old(self).line,
            final(self).tokens == old(self).tokens,
            final(self).errors == old(self).errors,
    {
        let c = self.source.as_str().get_char(self.current);
        self.current = self.current + 1;
        c
    }

    /// If the character at the cursor equals `expected`, consumes it and
    /// returns true; otherwise leaves the cursor untouched and returns
    /// false. This is the mechanism for two-character operator
    /// disambiguation.
    fn match_token(&mut self, expected: char) -> (r: bool)
        requires
            old(self).wf(),
        ensures
            final(self).wf(),
            r == (old(self).current < old(self).src().len() && old(self).src()[old(
                self,
            ).current as int] == expected),
            final(self).current == if r {
                old(self).current + 1
            } else {
                old(self).current as int
            },
            final(self).source == old(self).source,
            final(self).len == old(self).len,
            final(self).start == old(self).start,
            final(self).line == old(self).line,
            final(self).tokens == old(self).tokens,
            final(self).errors == old(self).errors,
    {
        if self.is_at_end() {
            return false;
        }
        if self.source.as_str().get_char(self.current) != expected {
            return false;
        }
        self.current = self.current + 1;
        true
    }

    /// Records a diagnostic; the scan continues.
    fn report_error(&mut self, e: ScanError)
        requires
            old(self).wf(),
        ensures
            final(self).wf(),
            final(self).errors.deep_view() == old(self).errors.deep_view().push(e@),
            final(self).source == old(self).source,
            final(self).len == old(self).len,
            final(self).start == old(self).start,
            final(self).current == old(self).current,
            final(self).line == old(self).line,
            final(self).tokens == old(self).tokens,
    {
        self.errors.push(e);
        proof {
            assert(self.errors.deep_view() =~= old(self).errors.deep_view().push(e@));
        }
    }

    /// Appends a token without a literal value.
    fn add_token(&mut self, token_type: TokenType)
        requires
            old(self).wf(),
        ensures
            final(self).wf(),
            final(self).tokens.deep_view() == old(self).tokens.deep_view().push(
                (crate::token::TokenView {
                    token_type,
                    lexeme: if token_type == TokenType::Eof {
                        "EOF"@
                    } else {
                        old(self).src().subrange(old(self).start as int, old(self).current as int)
                    },
                    line: old(self).line as int,
                    literal: crate::token::LiteralView::Null,
                }),
            ),
            final(self).source == old(self).source,
            final(self).len == old(self).len,
            final(self).start == old(self).start,
            final(self).current == old(self).current,
            final(self).line == old(self).line,
            final(self).errors == old(self).errors,
    {
        self.add_token_with_literal(token_type, Literal::Null);
    }

    /// Appends a token of the given classification and literal value. Its
    /// lexeme is the source slice `[start, current)` — or the fixed text
    /// `"EOF"` for the terminal token — and its line is the scanner's line
    /// counter at the moment of emission.
    fn add_token_with_literal(&mut self, token_type: TokenType, literal: Literal)
        requires
            old(self).wf(),
        ensures
            final(self).wf(),
            final(self).tokens.deep_view() == old(self).tokens.deep_view().push(
                (crate::token::TokenView {
                    token_type,
                    lexeme: if token_type == TokenType::Eof {
                        "EOF"@
                    } else {
                        old(self).src().subrange(old(self).start as int, old(self).current as int)
                    },
                    line: old(self).line as int,
                    literal: literal@,
                }),
            ),
            final(self).source == old(self).source,
            final(self).len == old(self).len,
            final(self).start == old(self).start,
            final(self).current == old(self).current,
            final(self).line == old(self).line,
            final(self).errors == old(self).errors,
    {
        let text: String = if token_type == TokenType::Eof {
            "EOF".to_owned()
        } else {
            self.source.as_str().substring_char(self.start, self.current).to_owned()
        };
        let t = Token { token_type, lexeme: text, line: self.line, literal };
        self.tokens.push(t);
        proof {
            assert(self.tokens.deep_view() =~= old(self).tokens.deep_view().push(t.deep_view()));
        }
    }

    /// Consumes one lexeme's worth of characters at the cursor and, on
    /// success, appends exactly one token — or none for whitespace, a
    /// newline, a comment, or an erroneous character. Agrees with one
    /// [`scan_step`] of the model.
    fn scan_token(&mut self)
        requires
            old(self).wf(),
            old(self).current < old(self).src().len(),
            old(self).start == old(self).current,
        ensures
            final(self).wf(),
            final(self).source == old(self).source,
            final(self).len == old(self).len,
            final(self).start == old(self).start,
            ({
                let st = scan_step(old(self).src(), old(self).current as int, old(self).line as int);
                &&& final(self).current == st.next
                &&& final(self).line == st.line
                &&& final(self).tokens.deep_view() == old(self).tokens.deep_view() + span_views(
                    opt_seq(st.token),
                )
                &&& final(self).errors.deep_view() == old(self).errors.deep_view() + opt_seq(
                    st.error,
                )
            }),
    {
        let ghost s = self.src();
        let ghost pos = self.current as int;
        let ghost line0 = self.line as int;
        let c = self.advance();
        match c {
            '(' => self.add_token(TokenType::LeftParen),
            ')' => self.add_token(TokenType::RightParen),
            '{' => self.add_token(TokenType::LeftBrace),
            '}' => self.add_token(TokenType::RightBrace),
            ',' => self.add_token(TokenType::Comma),
            '.' => self.add_token(TokenType::Dot),
            '-' => self.add_token(TokenType::Minus),
            '+' => self.add_token(TokenType::Plus),
            ';' => self.add_token(TokenType::Semicolon),
            '*' => self.add_token(TokenType::Star),
            '!' => {
                if self.match_token('=') {
                    self.add_token(TokenType::BangEqual)
                } else {
                    self.add_token(TokenType::Bang)
                }
            },
            '=' => {
                if self.match_token('=') {
                    self.add_token(TokenType::EqualEqual)
                } else {
                    self.add_token(TokenType::Equal)
                }
            },
            '<' => {
                if self.match_token('=') {
                    self.add_token(TokenType::LessEqual)
                } else {
                    self.add_token(TokenType::Less)
                }
            },
            '>' => {
                if self.match_token('=') {
                    self.add_token(TokenType::GreaterEqual)
                } else {
                    self.add_token(TokenType::Greater)
                }
            },
            '/' => {
                if self.match_token('/') {
                    // A line comment runs to the next newline, which is left
                    // for the main loop to consume and count.
                    let ghost base = self.current as int;
                    while self.peek_token() != '\n' && !self.is_at_end()
                        invariant
                            self.wf(),
                            self.src() == s,
                            self.source == old(self).source,
                            self.len == old(self).len,
                            self.start == old(self).start,
                            self.line == old(self).line,
                            self.tokens == old(self).tokens,
                            self.errors == old(self).errors,
                            base <= self.current <= self.len,
                            comment_end(s, self.current as int) == comment_end(s, base),
                        decreases self.len - self.current,
                    {
                        let ghost cur0 = self.current as int;
                        self.advance();
                        proof {
                            assert(comment_end(s, cur0) == comment_end(s, cur0 + 1));
                        }
                    }
                } else {
                    self.add_token(TokenType::Slash);
                }
            },
            ' ' => (),
            '\r' => (),
            '\t' => (),
            '\n' => {
                self.line = self.line + 1;
            },
            '"' => self.parse_string_literal(),
            _ => {
                if Self::is_digit(c) {
                    self.parse_number();
                } else {
                    let e = ScanError::UnexpectedCharacter { ch: c, line: self.line };
                    self.report_error(e);
                }
            },
        }
        proof {
            let st = scan_step(s, pos, line0);
            assert(self.tokens.deep_view() =~= old(self).tokens.deep_view() + span_views(
                opt_seq(st.token),
            ));
            assert(self.errors.deep_view() =~= old(self).errors.deep_view() + opt_seq(st.error));
        }
    }

    /// String-literal extraction, after the opening quote was consumed.
    /// Agrees with [`string_step`] of the model: on an unterminated literal
    /// it records the diagnostic and emits nothing; otherwise it emits one
    /// string token whose literal text excludes the delimiting quotes.
    fn parse_string_literal(&mut self)
        requires
            old(self).wf(),
            old(self).start < old(self).src().len(),
            old(self).current == old(self).start + 1,
            old(self).src()[old(self).start as int] == '"',
        ensures
            final(self).wf(),
            final(self).source == old(self).source,
            final(self).len == old(self).len,
            final(self).start == old(self).start,
            ({
                let st = string_step(old(self).src(), old(self).start as int, old(self).line as int);
                &&& final(self).current == st.next
                &&& final(self).line == st.line
                &&& final(self).tokens.deep_view() == old(self).tokens.deep_view() + span_views(
                    opt_seq(st.token),
                )
                &&& final(self).errors.deep_view() == old(self).errors.deep_view() + opt_seq(
                    st.error,
                )
            }),
    {
        let ghost s = self.src();
        let ghost pos = self.start as int;
        let ghost line0 = self.line as int;
        while self.peek_token() != '"' && !self.is_at_end()
            invariant
                self.wf(),
                self.src() == s,
                self.source == old(self).source,
                self.len == old(self).len,
                self.start == old(self).start,
                self.tokens == old(self).tokens,
                self.errors == old(self).errors,
                pos + 1 <= self.current <= self.len,
                string_end(s, self.current as int) == string_end(s, pos + 1),
                self.line as int == line0 + newline_count(s, pos + 1, self.current as int),
            decreases self.len - self.current,
        {
            let ghost cur0 = self.current as int;
            let c = self.advance();
            if c == '\n' {
                self.line = self.line + 1;
            }
            proof {
                assert(string_end(s, cur0) == string_end(s, cur0 + 1));
                assert(newline_count(s, pos + 1, cur0 + 1) == newline_count(s, pos + 1, cur0) + (
                if s[cur0] == '\n' {
                    1int
                } else {
                    0int
                }));
            }
        }
        proof {
            lemma_string_end_bounds(s, pos + 1);
            assert(self.current as int == string_end(s, pos + 1));
        }
        if self.is_at_end() {
            let e = ScanError::UnterminatedString { line: self.line };
            self.report_error(e);
            return ;
        }
        self.advance();
        let text = self.source.as_str().substring_char(self.start + 1, self.current - 1).to_owned();
        self.add_token_with_literal(TokenType::StringLit, Literal::Text(text));
    }

    /// Number-literal extraction, after the first digit was consumed.
    /// Agrees with [`number_step`] of the model: the run of digits, extended
    /// past a decimal point only when a digit follows it, so a trailing bare
    /// `.` is left for the next dispatch step.
    fn parse_number(&mut self)
        requires
            old(self).wf(),
            old(self).start < old(self).src().len(),
            old(self).current == old(self).start + 1,
            is_digit_char(old(self).src()[old(self).start as int]),
        ensures
            final(self).wf(),
            final(self).source == old(self).source,
            final(self).len == old(self).len,
            final(self).start == old(self).start,
            ({
                let st = number_step(old(self).src(), old(self).start as int, old(self).line as int);
                &&& final(self).current == st.next
                &&& final(self).line == st.line
                &&& final(self).tokens.deep_view() == old(self).tokens.deep_view() + span_views(
                    opt_seq(st.token),
                )
                &&& final(self).errors.deep_view() == old(self).errors.deep_view() + opt_seq(
                    st.error,
                )
            }),
    {
        let ghost s = self.src();
        let ghost pos = self.start as int;
        while Self::is_digit(self.peek_token())
            invariant
                self.wf(),
                self.src() == s,
                self.source == old(self).source,
                self.len == old(self).len,
                self.start == old(self).start,
                self.line == old(self).line,
                self.tokens == old(self).tokens,
                self.errors == old(self).errors,
                pos + 1 <= self.current <= self.len,
                digits_end(s, self.current as int) == digits_end(s, pos + 1),
            decreases self.len - self.current,
        {
            let ghost cur0 = self.current as int;
            self.advance();
            proof {
                assert(digits_end(s, cur0) == digits_end(s, cur0 + 1));
            }
        }
        proof {
            assert(self.current as int == digits_end(s, pos + 1));
        }
        let ghost d = self.current as int;
        let c = self.peek_token();
        let cn = self.peek_next_token();
        if c == '.' && Self::is_digit(cn) {
            self.advance();
            while Self::is_digit(self.peek_token())
                invariant
                    self.wf(),
                    self.src() == s,
                    self.source == old(self).source,
                    self.len == old(self).len,
                    self.start == old(self).start,
                    self.line == old(self).line,
                    self.tokens == old(self).tokens,
                    self.errors == old(self).errors,
                    d + 1 <= self.current <= self.len,
                    digits_end(s, self.current as int) == digits_end(s, d + 2),
                decreases self.len - self.current,
            {
                let ghost cur0 = self.current as int;
                self.advance();
                proof {
                    assert(digits_end(s, cur0) == digits_end(s, cur0 + 1));
                }
            }
            proof {
                assert(self.current as int == digits_end(s, d + 2));
                assert(self.current as int == number_end(s, pos));
            }
        } else {
            proof {
                assert(self.current as int == number_end(s, pos));
            }
        }
        let text = self.source.as_str().substring_char(self.start, self.current).to_owned();
        self.add_token_with_literal(TokenType::Number, Literal::Number(text));
    }

    /// Scans the whole source: while characters remain, one dispatch step at
    /// a time, then the terminal end-of-input token unconditionally. The
    /// result is exactly what the model assigns to the source text, so any
    /// two scans of equal sources agree; it is never empty, and its last
    /// token is the end-of-input marker.
    pub fn scan_tokens(self) -> (r: ScanOutcome)
        requires
            self.wf(),
            self.fresh(),
        ensures
            r.tokens.deep_view() == token_views(self.src()),
            r.errors.deep_view() == scan_spec(self.src()).errors,
            r.tokens@.len() == token_views(self.src()).len(),
            r.tokens@.len() >= 1,
            r.tokens@[r.tokens@.len() - 1].token_type == TokenType::Eof,
    {
        let ghost s = self.src();
        let mut sc = self;
        proof {
            assert(sc.tokens.deep_view() + span_views(scan_from(s, 0, 1).tokens) =~= span_views(
                scan_from(s, sc.current as int, sc.line as int).tokens,
            ));
            assert(sc.errors.deep_view() + scan_from(s, 0, 1).errors =~= scan_from(
                s,
                sc.current as int,
                sc.line as int,
            ).errors);
        }
        while !sc.is_at_end()
            invariant
                sc.wf(),
                sc.src() == s,
                sc.tokens.deep_view() + span_views(scan_from(s, sc.current as int, sc.line as int).tokens)
                    == span_views(scan_from(s, 0, 1).tokens),
                sc.errors.deep_view() + scan_from(s, sc.current as int, sc.line as int).errors
                    == scan_from(s, 0, 1).errors,
                scan_from(s, sc.current as int, sc.line as int).line == scan_from(s, 0, 1).line,
            decreases s.len() - sc.current,
        {
            sc.start = sc.current;
            let ghost pre = sc;
            sc.scan_token();
            proof {
                let pos = pre.current as int;
                let l = pre.line as int;
                lemma_scan_step_bounds(s, pos, l);
                let st = scan_step(s, pos, l);
                let rest = scan_from(s, st.next, st.line);
                assert(scan_from(s, pos, l).tokens == opt_seq(st.token) + rest.tokens);
                assert(scan_from(s, pos, l).errors == opt_seq(st.error) + rest.errors);
                assert(span_views(opt_seq(st.token) + rest.tokens) =~= span_views(opt_seq(st.token))
                    + span_views(rest.tokens));
                assert(sc.tokens.deep_view() + span_views(
                    scan_from(s, sc.current as int, sc.line as int).tokens,
                ) =~= span_views(scan_from(s, 0, 1).tokens));
                assert(sc.errors.deep_view() + scan_from(s, sc.current as int, sc.line as int).errors
                    =~= scan_from(s, 0, 1).errors);
            }
        }
        proof {
            assert(sc.tokens.deep_view() =~= span_views(scan_from(s, 0, 1).tokens));
            assert(sc.errors.deep_view() =~= scan_from(s, 0, 1).errors);
        }
        sc.start = sc.current;
        sc.add_token(TokenType::Eof);
        proof {
            assert(sc.tokens.deep_view() =~= span_views(scan_spec(s).tokens));
            assert(sc.tokens.deep_view() == token_views(s));
            assert(sc.tokens@.len() == sc.tokens.deep_view().len());
            assert(sc.tokens@[sc.tokens@.len() - 1].token_type == sc.tokens.deep_view()[sc.tokens@.len()
                - 1].token_type);
        }
        ScanOutcome { tokens: sc.tokens, errors: sc.errors }
    }
}

} // verus!
