//! Lexical-analysis front end for a small dynamically-typed scripting
//! language: it converts raw source text into an ordered sequence of
//! classified tokens, tracking source line numbers and reporting lexical
//! errors while continuing to scan.

pub mod laws;
pub mod model;
pub mod scanner;
pub mod token;
pub mod token_type;

pub use scanner::ScanError;
pub use scanner::ScanOutcome;
pub use scanner::Scanner;
pub use token::Literal;
pub use token::LiteralView;
pub use token::Token;
pub use token::TokenView;
pub use token_type::TokenType;
