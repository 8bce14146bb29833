use vstd::prelude::*;

use crate::token_type::TokenType;

verus! {

/// The closed set of scalar values a token may carry.
///
/// A string token carries `Text` with the content strictly between its
/// delimiting quotes. A number token carries `Number` with the exact digit
/// text of its lexeme: the crate keeps floating point out of verified code,
/// so the decimal value is left for the consumer to parse from that text.
/// Every other token carries `Null`.
#[derive(Debug, Clone)]
pub enum Literal {
    Null,
    Text(String),
    Number(String),
}

/// The mathematical value of a [`Literal`]: the same tag over character
/// sequences.
pub enum LiteralView {
    Null,
    Text(Seq<char>),
    Number(Seq<char>),
}

impl View for Literal {
    type V = LiteralView;

    open spec fn view(&self) -> LiteralView {
        match self {
            Literal::Null => LiteralView::Null,
            Literal::Text(s) => LiteralView::Text(s@),
            Literal::Number(s) => LiteralView::Number(s@),
        }
    }
}

impl DeepView for Literal {
    type V = LiteralView;

    open spec fn deep_view(&self) -> LiteralView {
        self.view()
    }
}

impl PartialEq for Literal {
    fn eq(&self, other: &Literal) -> (r: bool) {
        match (self, other) {
            (Literal::Null, Literal::Null) => true,
            (Literal::Text(a), Literal::Text(b)) => *a == *b,
            (Literal::Number(a), Literal::Number(b)) => *a == *b,
            _ => false,
        }
    }
}

impl vstd::std_specs::cmp::PartialEqSpecImpl for Literal {
    open spec fn obeys_eq_spec() -> bool {
        true
    }

    open spec fn eq_spec(&self, other: &Literal) -> bool {
        self@ == other@
    }
}

/// An immutable record of one unit of lexical meaning: its classification,
/// the exact source text it was recognized from, the 1-based source line it
/// was completed on, and the literal value it carries.
///
/// The lexeme of the terminal end-of-input token is the fixed text `"EOF"`.
#[derive(Debug, Clone)]
pub struct Token {
    pub token_type: TokenType,
    pub lexeme: String,
    pub line: usize,
    pub literal: Literal,
}

/// The mathematical value of a [`Token`].
pub struct TokenView {
    pub token_type: TokenType,
    pub lexeme: Seq<char>,
    pub line: int,
    pub literal: LiteralView,
}

impl View for Token {
    type V = TokenView;

    open spec fn view(&self) -> TokenView {
        TokenView {
            token_type: self.token_type,
            lexeme: self.lexeme@,
            line: self.line as int,
            literal: self.literal@,
        }
    }
}

impl DeepView for Token {
    type V = TokenView;

    open spec fn deep_view(&self) -> TokenView {
        self.view()
    }
}

impl PartialEq for Token {
    fn eq(&self, other: &Token) -> (r: bool) {
        self.token_type == other.token_type && self.lexeme == other.lexeme
            && self.line == other.line && self.literal == other.literal
    }
}

impl vstd::std_specs::cmp::PartialEqSpecImpl for Token {
    open spec fn obeys_eq_spec() -> bool {
        true
    }

    open spec fn eq_spec(&self, other: &Token) -> bool {
        self@ == other@
    }
}

impl Token {
    /// Builds the record from its four fields.
    pub fn new(token_type: TokenType, lexeme: String, line: usize, literal: Literal) -> (t: Token)
        ensures
            t.token_type == token_type,
            t.lexeme == lexeme,
            t.line == line,
            t.literal == literal,
            t@ == (TokenView {
                token_type,
                lexeme: lexeme@,
                line: line as int,
                literal: literal@,
            }),
    {
        Token { token_type, lexeme, line, literal }
    }
}

} // verus!
