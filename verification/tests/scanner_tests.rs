use lox_scanner::Literal;
use lox_scanner::ScanError;
use lox_scanner::ScanOutcome;
use lox_scanner::Scanner;
use lox_scanner::Token;
use lox_scanner::TokenType;

fn scan(source: &str) -> ScanOutcome {
    Scanner::new(source.to_string()).scan_tokens()
}

fn types_of(out: &ScanOutcome) -> Vec<TokenType> {
    out.tokens.iter().map(|t| t.token_type).collect()
}

#[test]
fn empty_source_yields_only_eof() {
    let out = scan("");
    assert_eq!(out.tokens.len(), 1);
    assert_eq!(out.tokens[0].token_type, TokenType::Eof);
    assert_eq!(out.tokens[0].lexeme, "EOF");
    assert_eq!(out.tokens[0].line, 1);
    assert_eq!(out.tokens[0].literal, Literal::Null);
    assert!(out.errors.is_empty());
}

#[test]
fn terminal_token_always_last() {
    for source in ["", "(", "1 + 2", "\"open", "@#", "// only a comment"] {
        let out = scan(source);
        assert!(!out.tokens.is_empty());
        assert_eq!(out.tokens.last().unwrap().token_type, TokenType::Eof);
        assert_eq!(out.tokens.last().unwrap().lexeme, "EOF");
    }
}

#[test]
fn punctuation_single_chars() {
    let out = scan("(){},.-+;*");
    let expected = [
        TokenType::LeftParen,
        TokenType::RightParen,
        TokenType::LeftBrace,
        TokenType::RightBrace,
        TokenType::Comma,
        TokenType::Dot,
        TokenType::Minus,
        TokenType::Plus,
        TokenType::Semicolon,
        TokenType::Star,
        TokenType::Eof,
    ];
    assert_eq!(types_of(&out), expected.to_vec());
    assert_eq!(out.tokens[0].lexeme, "(");
    assert_eq!(out.tokens[9].lexeme, "*");
    assert!(out.errors.is_empty());
}

#[test]
fn greedy_bang_equal() {
    let out = scan("!=");
    assert_eq!(types_of(&out), vec![TokenType::BangEqual, TokenType::Eof]);
    assert_eq!(out.tokens[0].lexeme, "!=");
}

#[test]
fn bang_alone_before_other_character() {
    let out = scan("!(");
    assert_eq!(
        types_of(&out),
        vec![TokenType::Bang, TokenType::LeftParen, TokenType::Eof]
    );
    assert_eq!(out.tokens[0].lexeme, "!");
}

#[test]
fn greedy_all_two_char_operators() {
    let out = scan("== <= >= !=");
    assert_eq!(
        types_of(&out),
        vec![
            TokenType::EqualEqual,
            TokenType::LessEqual,
            TokenType::GreaterEqual,
            TokenType::BangEqual,
            TokenType::Eof,
        ]
    );
    assert!(out.errors.is_empty());
}

#[test]
fn single_char_operators() {
    let out = scan("=<>");
    assert_eq!(
        types_of(&out),
        vec![TokenType::Equal, TokenType::Less, TokenType::Greater, TokenType::Eof]
    );
}

#[test]
fn slash_alone_is_a_token() {
    let out = scan("/");
    assert_eq!(types_of(&out), vec![TokenType::Slash, TokenType::Eof]);
    assert_eq!(out.tokens[0].lexeme, "/");
}

#[test]
fn comment_produces_no_token() {
    let out = scan("// comment\n+");
    assert_eq!(types_of(&out), vec![TokenType::Plus, TokenType::Eof]);
    assert_eq!(out.tokens[0].line, 2);
    assert!(out.errors.is_empty());
}

#[test]
fn comment_at_end_without_newline() {
    let out = scan("//x");
    assert_eq!(types_of(&out), vec![TokenType::Eof]);
    assert!(out.errors.is_empty());
}

#[test]
fn whitespace_emits_nothing() {
    let out = scan(" \r\t");
    assert_eq!(types_of(&out), vec![TokenType::Eof]);
    assert_eq!(out.tokens[0].line, 1);
    assert!(out.errors.is_empty());
}

#[test]
fn newline_increments_line() {
    let out = scan("+\n+");
    assert_eq!(out.tokens[0].line, 1);
    assert_eq!(out.tokens[1].line, 2);
    assert_eq!(out.tokens[2].line, 2);
}

#[test]
fn unexpected_characters_report_lines_in_order() {
    let out = scan("a\nb\nc");
    assert_eq!(types_of(&out), vec![TokenType::Eof]);
    assert_eq!(
        out.errors,
        vec![
            ScanError::UnexpectedCharacter { ch: 'a', line: 1 },
            ScanError::UnexpectedCharacter { ch: 'b', line: 2 },
            ScanError::UnexpectedCharacter { ch: 'c', line: 3 },
        ]
    );
}

#[test]
fn multi_line_string() {
    let out = scan("\"ab\ncd\"");
    assert_eq!(types_of(&out), vec![TokenType::StringLit, TokenType::Eof]);
    assert_eq!(out.tokens[0].lexeme, "\"ab\ncd\"");
    assert_eq!(out.tokens[0].literal, Literal::Text("ab\ncd".to_string()));
    assert_eq!(out.tokens[0].line, 2);
    assert_eq!(out.tokens[1].line, 2);
    assert!(out.errors.is_empty());
}

#[test]
fn string_literal_excludes_quotes_lexeme_keeps_them() {
    let out = scan("\"hi\"");
    assert_eq!(out.tokens[0].lexeme, "\"hi\"");
    assert_eq!(out.tokens[0].literal, Literal::Text("hi".to_string()));
}

#[test]
fn unterminated_string_yields_no_token() {
    let out = scan("\"abc");
    assert_eq!(types_of(&out), vec![TokenType::Eof]);
    assert_eq!(out.errors, vec![ScanError::UnterminatedString { line: 1 }]);
    assert!(out.had_error());
}

#[test]
fn number_with_fraction() {
    let out = scan("123.456");
    assert_eq!(types_of(&out), vec![TokenType::Number, TokenType::Eof]);
    assert_eq!(out.tokens[0].lexeme, "123.456");
    match &out.tokens[0].literal {
        Literal::Number(text) => {
            assert_eq!(text, "123.456");
            assert_eq!(text.parse::<f64>().unwrap(), 123.456);
        }
        other => panic!("expected a number literal, got {:?}", other),
    }
}

#[test]
fn number_trailing_dot_not_absorbed() {
    let out = scan("123.");
    assert_eq!(
        types_of(&out),
        vec![TokenType::Number, TokenType::Dot, TokenType::Eof]
    );
    assert_eq!(out.tokens[0].lexeme, "123");
    assert_eq!(out.tokens[0].literal, Literal::Number("123".to_string()));
    assert_eq!(out.tokens[1].lexeme, ".");
}

#[test]
fn number_dot_then_non_digit() {
    let out = scan("1.x");
    assert_eq!(
        types_of(&out),
        vec![TokenType::Number, TokenType::Dot, TokenType::Eof]
    );
    assert_eq!(out.tokens[0].lexeme, "1");
    assert_eq!(
        out.errors,
        vec![ScanError::UnexpectedCharacter { ch: 'x', line: 1 }]
    );
}

#[test]
fn leading_zeros_kept_in_digit_text() {
    let out = scan("007");
    assert_eq!(out.tokens[0].literal, Literal::Number("007".to_string()));
}

#[test]
fn scanning_twice_is_idempotent() {
    let source = "(\"s\" 12.5 @) <= // tail";
    let a = scan(source);
    let b = scan(source);
    assert_eq!(a.tokens, b.tokens);
    assert_eq!(a.errors, b.errors);
}

#[test]
fn lexemes_concatenate_to_source_without_trivia() {
    let source = "(12+3)<=\"ab\"";
    let out = scan(source);
    let joined: String = out.tokens[..out.tokens.len() - 1]
        .iter()
        .map(|t| t.lexeme.as_str())
        .collect();
    assert_eq!(joined, source);
}

#[test]
fn classification_display_names() {
    assert_eq!(TokenType::LeftParen.name(), "LEFT_PAREN");
    assert_eq!(TokenType::Semicolon.name(), "SEMICOLON");
    assert_eq!(TokenType::BangEqual.name(), "BANG_EQUAL");
    assert_eq!(TokenType::StringLit.name(), "STRING");
    assert_eq!(TokenType::Number.name(), "NUMBER");
    assert_eq!(TokenType::Identifier.name(), "IDENTIFIER");
    assert_eq!(TokenType::Eof.name(), "EOF");
}

#[test]
fn token_new_builds_the_record() {
    let t = Token::new(TokenType::Plus, "+".to_string(), 3, Literal::Null);
    assert_eq!(t.token_type, TokenType::Plus);
    assert_eq!(t.lexeme, "+");
    assert_eq!(t.line, 3);
    assert_eq!(t.literal, Literal::Null);
}

#[test]
fn clean_scan_has_no_error() {
    let out = scan("(1 + 2) * 3.5;");
    assert!(!out.had_error());
    assert!(out.errors.is_empty());
}

#[test]
fn errors_do_not_stop_scanning() {
    let out = scan("@+#-");
    assert_eq!(
        types_of(&out),
        vec![TokenType::Plus, TokenType::Minus, TokenType::Eof]
    );
    assert_eq!(out.errors.len(), 2);
}
