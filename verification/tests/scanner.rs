use jlox::scanner::{scan_tokens, scan_tokens_from};
use jlox::token::{keyword, Token, TokenKind, TokenType};

fn kinds(source: &str) -> Vec<TokenKind> {
    let scan = scan_tokens(source.to_string());
    assert!(scan.errors.is_empty());
    scan.tokens.iter().map(|token| token.kind()).collect()
}

#[test]
fn token_offsets_are_pairwise_distinct() {
    let scan = scan_tokens("var a = a + a; // a\nprint \"a\"; a".to_string());
    for i in 0..scan.tokens.len() {
        for j in 0..i {
            assert_ne!(scan.tokens[i].byte, scan.tokens[j].byte);
        }
    }
    let offsets: Vec<usize> = scan.tokens.iter().map(|token| token.byte).collect();
    assert_eq!(offsets, vec![0, 4, 6, 8, 10, 12, 13, 20, 26, 29, 31, 32]);
}

#[test]
fn end_of_input_token_is_last_and_has_its_own_offset() {
    let scan = scan_tokens("a".to_string());
    assert_eq!(scan.tokens.len(), 2);
    assert_eq!(scan.tokens[0].byte, 0);
    assert_eq!(scan.tokens[1].kind(), TokenKind::Eof);
    assert_eq!(scan.tokens[1].byte, 1);
    assert_eq!(scan.tokens[1].lexeme, "");
}

#[test]
fn empty_source_scans_to_end_of_input() {
    let scan = scan_tokens(String::new());
    assert!(scan.errors.is_empty());
    assert_eq!(scan.tokens.len(), 1);
    assert_eq!(scan.tokens[0].kind(), TokenKind::Eof);
    assert_eq!(scan.tokens[0].line, 1);
}

#[test]
fn single_character_tokens() {
    assert_eq!(
        kinds("(){},.-+;*/"),
        vec![
            TokenKind::LeftParen,
            TokenKind::RightParen,
            TokenKind::LeftBrace,
            TokenKind::RightBrace,
            TokenKind::Comma,
            TokenKind::Dot,
            TokenKind::Minus,
            TokenKind::Plus,
            TokenKind::Semicolon,
            TokenKind::Star,
            TokenKind::Slash,
            TokenKind::Eof,
        ]
    );
}

#[test]
fn one_or_two_character_tokens() {
    assert_eq!(
        kinds("! != = == < <= > >="),
        vec![
            TokenKind::Bang,
            TokenKind::BangEqual,
            TokenKind::Equal,
            TokenKind::EqualEqual,
            TokenKind::Less,
            TokenKind::LessEqual,
            TokenKind::Greater,
            TokenKind::GreaterEqual,
            TokenKind::Eof,
        ]
    );
    assert_eq!(kinds("==="), vec![TokenKind::EqualEqual, TokenKind::Equal, TokenKind::Eof]);
}

#[test]
fn keywords_and_identifiers() {
    assert_eq!(
        kinds("and class else false for fun if nil or print return super this true var while"),
        vec![
            TokenKind::And,
            TokenKind::Class,
            TokenKind::Else,
            TokenKind::False,
            TokenKind::For,
            TokenKind::Fun,
            TokenKind::If,
            TokenKind::Nil,
            TokenKind::Or,
            TokenKind::Print,
            TokenKind::Return,
            TokenKind::Super,
            TokenKind::This,
            TokenKind::True,
            TokenKind::Var,
            TokenKind::While,
            TokenKind::Eof,
        ]
    );
    assert_eq!(
        kinds("andy _while var1 Class"),
        vec![
            TokenKind::Identifier,
            TokenKind::Identifier,
            TokenKind::Identifier,
            TokenKind::Identifier,
            TokenKind::Eof,
        ]
    );
    assert!(matches!(keyword("while"), Some(TokenType::While)));
    assert!(keyword("whil").is_none());
    assert!(keyword("").is_none());
}

#[test]
fn comment_runs_to_the_end_of_the_line() {
    let scan = scan_tokens("1 // two three\n4".to_string());
    assert!(scan.errors.is_empty());
    assert_eq!(scan.tokens.len(), 3);
    assert_eq!(scan.tokens[1].lexeme, "4");
    assert_eq!(scan.tokens[1].line, 2);
    assert_eq!(kinds("// only a comment"), vec![TokenKind::Eof]);
}

#[test]
fn whitespace_is_skipped_and_newlines_are_counted() {
    let scan = scan_tokens(" a\r\n\tb\n\nc".to_string());
    let lines: Vec<usize> = scan.tokens.iter().map(|token| token.line).collect();
    assert_eq!(lines, vec![1, 2, 4, 4]);
}

#[test]
fn number_literals_carry_their_value() {
    let scan = scan_tokens("12 3.5 0.1 007".to_string());
    assert!(scan.errors.is_empty());
    let values: Vec<f64> = scan
        .tokens
        .iter()
        .filter_map(|token| match token.token_type {
            TokenType::Number(bits) => Some(f64::from_bits(bits)),
            _ => None,
        })
        .collect();
    assert_eq!(values, vec![12.0, 3.5, 0.1, 7.0]);
    assert_eq!(scan.tokens[1].lexeme, "3.5");
}

#[test]
fn trailing_dot_is_not_part_of_a_number() {
    assert_eq!(kinds("1."), vec![TokenKind::Number, TokenKind::Dot, TokenKind::Eof]);
    assert_eq!(
        kinds("1.a"),
        vec![TokenKind::Number, TokenKind::Dot, TokenKind::Identifier, TokenKind::Eof]
    );
    assert_eq!(kinds(".5"), vec![TokenKind::Dot, TokenKind::Number, TokenKind::Eof]);
    assert_eq!(
        kinds("1.2.3"),
        vec![TokenKind::Number, TokenKind::Dot, TokenKind::Number, TokenKind::Eof]
    );
}

#[test]
fn string_literal_carries_its_text_without_quotes() {
    let scan = scan_tokens("\"hi there\"".to_string());
    assert!(scan.errors.is_empty());
    assert_eq!(scan.tokens[0].lexeme, "\"hi there\"");
    match &scan.tokens[0].token_type {
        TokenType::String(text) => assert_eq!(text, "hi there"),
        _ => panic!("expected a string token"),
    }
}

#[test]
fn string_may_span_lines_and_hold_any_character() {
    let scan = scan_tokens("\"a\nb é 日本\" x".to_string());
    assert!(scan.errors.is_empty());
    match &scan.tokens[0].token_type {
        TokenType::String(text) => assert_eq!(text, "a\nb é 日本"),
        _ => panic!("expected a string token"),
    }
    assert_eq!(scan.tokens[0].line, 2);
    assert_eq!(scan.tokens[1].lexeme, "x");
    assert_eq!(scan.tokens[1].line, 2);
}

#[test]
fn unterminated_string_is_an_error() {
    let scan = scan_tokens("1 \"abc\ndef".to_string());
    assert_eq!(scan.errors.len(), 1);
    assert_eq!(scan.errors[0].to_string(), "[line 2] Error: Unterminated string.");
    assert_eq!(scan.tokens.len(), 2);
    assert_eq!(scan.tokens[1].kind(), TokenKind::Eof);
}

#[test]
fn unexpected_character_is_an_error_and_scanning_goes_on() {
    let scan = scan_tokens("a @ b # c".to_string());
    assert_eq!(scan.errors.len(), 2);
    assert_eq!(scan.errors[0].to_string(), "[line 1] Error: Unexpected character.");
    assert_eq!(scan.tokens.len(), 4);
}

#[test]
fn character_of_several_bytes_is_one_unexpected_character() {
    let scan = scan_tokens("é日a".to_string());
    assert_eq!(scan.errors.len(), 2);
    assert_eq!(scan.tokens.len(), 2);
    assert_eq!(scan.tokens[0].lexeme, "a");
    assert_eq!(scan.tokens[0].byte, 5);
}

#[test]
fn offsets_start_at_the_base() {
    let scan = scan_tokens_from("a b", 100);
    let offsets: Vec<usize> = scan.tokens.iter().map(|token| token.byte).collect();
    assert_eq!(offsets, vec![100, 102, 103]);
}

#[test]
fn unwrap_moves_the_errors() {
    let mut errors = Vec::new();
    let tokens = scan_tokens("@ 1".to_string()).unwrap(&mut errors);
    assert_eq!(errors.len(), 1);
    assert_eq!(tokens.len(), 2);
}

#[test]
fn tokens_are_equal_when_they_start_at_the_same_byte() {
    let a = Token::new(TokenType::Identifier, "a".to_string(), 1, 7);
    let b = Token::new(TokenType::Identifier, "b".to_string(), 2, 7);
    let c = Token::new(TokenType::Identifier, "a".to_string(), 1, 8);
    assert!(a == b);
    assert!(a != c);
    let d = a.clone();
    assert_eq!(d.lexeme, "a");
    assert_eq!(d.line, 1);
}
