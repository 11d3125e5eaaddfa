use lox::errors::ScanErrorKind;
use lox::literal::{Literal, Number};
use lox::scanner::Scanner;
use lox::token::Token;
use lox::token_kind::TokenKind;

fn scan_ok(src: &str) -> Vec<Token> {
    Scanner::new(src).scan().expect("scan should succeed")
}

#[test]
fn it_works() {
}

#[test]
fn empty_input_yields_only_eof() {
    let tokens = scan_ok("");
    assert_eq!(tokens.len(), 1);
    assert_eq!(tokens[0].kind, TokenKind::Eof);
    assert_eq!(tokens[0].lexeme, "");
    assert_eq!(tokens[0].line, 1);
}

#[test]
fn whitespace_only_yields_ws_then_eof() {
    let tokens = scan_ok(" \r\t  ");
    assert_eq!(tokens.len(), 6);
    for t in &tokens[..5] {
        assert_eq!(t.kind, TokenKind::Ws);
        assert_eq!(t.lexeme.chars().count(), 1);
    }
    assert_eq!(tokens[5].kind, TokenKind::Eof);
}

#[test]
fn exactly_one_eof_at_the_end() {
    let tokens = scan_ok("var x = 1; // done");
    let eof_count = tokens.iter().filter(|t| t.kind == TokenKind::Eof).count();
    assert_eq!(eof_count, 1);
    assert_eq!(tokens.last().unwrap().kind, TokenKind::Eof);
}

#[test]
fn single_character_tokens_in_order() {
    let tokens = scan_ok("( ) { } , . - + ; *");
    let expected = [
        TokenKind::LeftParen,
        TokenKind::RightParen,
        TokenKind::LeftBrace,
        TokenKind::RightBrace,
        TokenKind::Comma,
        TokenKind::Dot,
        TokenKind::Minus,
        TokenKind::Plus,
        TokenKind::Semicolon,
        TokenKind::Star,
    ];
    let meaningful: Vec<&Token> = tokens.iter().filter(|t| t.kind != TokenKind::Ws).collect();
    assert_eq!(meaningful.len(), expected.len() + 1);
    for (t, kind) in meaningful.iter().zip(expected.iter()) {
        assert_eq!(t.kind, *kind);
        assert_eq!(t.lexeme.chars().count(), 1);
    }
    assert_eq!(meaningful.last().unwrap().kind, TokenKind::Eof);
}

#[test]
fn bang_equal_is_one_token() {
    let tokens = scan_ok("!=");
    assert_eq!(tokens.len(), 2);
    assert_eq!(tokens[0].kind, TokenKind::BangEqual);
    assert_eq!(tokens[0].lexeme, "!=");
    assert_eq!(tokens[1].kind, TokenKind::Eof);

    let tokens = scan_ok("!");
    assert_eq!(tokens.len(), 2);
    assert_eq!(tokens[0].kind, TokenKind::Bang);
    assert_eq!(tokens[0].lexeme, "!");
}

#[test]
fn two_character_operators() {
    let tokens = scan_ok("== <= >= < > =");
    let kinds: Vec<TokenKind> = tokens
        .iter()
        .filter(|t| t.kind != TokenKind::Ws)
        .map(|t| t.kind)
        .collect();
    assert_eq!(
        kinds,
        vec![
            TokenKind::EqualEqual,
            TokenKind::LesserEqual,
            TokenKind::GreaterEqual,
            TokenKind::Lesser,
            TokenKind::Greater,
            TokenKind::Equal,
            TokenKind::Eof,
        ]
    );
}

#[test]
fn comment_is_skipped_and_line_advances() {
    let tokens = scan_ok("// comment\n123");
    assert_eq!(tokens.len(), 2);
    assert_eq!(tokens[0].kind, TokenKind::Number);
    assert_eq!(tokens[0].line, 2);
    assert_eq!(
        tokens[0].literal,
        Some(Literal::Number(Number::Int(123)))
    );
    assert_eq!(tokens[1].kind, TokenKind::Eof);
}

#[test]
fn comment_at_end_of_input() {
    let tokens = scan_ok("// nothing after");
    assert_eq!(tokens.len(), 1);
    assert_eq!(tokens[0].kind, TokenKind::Eof);
}

#[test]
fn slash_alone_is_a_token() {
    let tokens = scan_ok("/");
    assert_eq!(tokens[0].kind, TokenKind::Slash);
    assert_eq!(tokens[0].lexeme, "/");
}

#[test]
fn string_literal_value_excludes_quotes() {
    let tokens = scan_ok("\"abc\"");
    assert_eq!(tokens.len(), 2);
    assert_eq!(tokens[0].kind, TokenKind::String);
    assert_eq!(tokens[0].lexeme, "\"abc\"");
    match &tokens[0].literal {
        Some(Literal::String(text)) => {
            assert_eq!(text, "abc");
            assert_eq!(text.chars().count(), 3);
        },
        other => panic!("expected a string literal, got {:?}", other),
    }
    assert_eq!(tokens[1].kind, TokenKind::Eof);
}

#[test]
fn multi_line_string_counts_lines() {
    let tokens = scan_ok("\"a\nb\"x");
    assert_eq!(tokens[0].kind, TokenKind::String);
    match &tokens[0].literal {
        Some(Literal::String(text)) => assert_eq!(text, "a\nb"),
        other => panic!("expected a string literal, got {:?}", other),
    }
    assert_eq!(tokens[0].line, 2);
    assert_eq!(tokens[1].kind, TokenKind::Identifier);
    assert_eq!(tokens[1].line, 2);
}

#[test]
fn unterminated_string_fails_at_line_one() {
    let err = Scanner::new("\"unterminated").scan().unwrap_err();
    assert_eq!(err.kind, ScanErrorKind::UnterminatedString);
    assert_eq!(err.line, 1);
    assert_eq!(err.message(), "unterminated string");
}

#[test]
fn float_literal_keeps_its_text() {
    let tokens = scan_ok("12.5");
    assert_eq!(tokens.len(), 2);
    assert_eq!(tokens[0].kind, TokenKind::Number);
    assert_eq!(tokens[0].lexeme, "12.5");
    match &tokens[0].literal {
        Some(Literal::Number(Number::Float(text))) => {
            assert_eq!(text, "12.5");
            let value: f64 = text.parse().unwrap();
            assert_eq!(value, 12.5);
        },
        other => panic!("expected a float literal, got {:?}", other),
    }
}

#[test]
fn trailing_dot_is_not_part_of_the_number() {
    let tokens = scan_ok("12.");
    assert_eq!(tokens.len(), 3);
    assert_eq!(tokens[0].kind, TokenKind::Number);
    assert_eq!(tokens[0].literal, Some(Literal::Number(Number::Int(12))));
    assert_eq!(tokens[1].kind, TokenKind::Dot);
    assert_eq!(tokens[2].kind, TokenKind::Eof);
}

#[test]
fn integer_literal_exact_value() {
    let tokens = scan_ok("123");
    assert_eq!(tokens[0].literal, Some(Literal::Number(Number::Int(123))));
    let tokens = scan_ok("0007");
    assert_eq!(tokens[0].literal, Some(Literal::Number(Number::Int(7))));
    let tokens = scan_ok("9223372036854775807");
    assert_eq!(
        tokens[0].literal,
        Some(Literal::Number(Number::Int(i64::MAX)))
    );
}

#[test]
fn integer_overflow_is_a_malformed_number() {
    let err = Scanner::new("9223372036854775808").scan().unwrap_err();
    assert_eq!(err.kind, ScanErrorKind::MalformedNumber);
    assert_eq!(err.line, 1);
    assert_eq!(err.message(), "malformed number");
}

#[test]
fn unrecognized_character_fails_with_its_line() {
    let err = Scanner::new("\n\n#").scan().unwrap_err();
    assert_eq!(err.kind, ScanErrorKind::InvalidCharacter);
    assert_eq!(err.line, 3);
    assert_eq!(err.message(), "unrecognized character");
}

#[test]
fn keyword_matching_is_exact_not_prefix() {
    let tokens = scan_ok("and andy");
    let meaningful: Vec<&Token> = tokens.iter().filter(|t| t.kind != TokenKind::Ws).collect();
    assert_eq!(meaningful.len(), 3);
    assert_eq!(meaningful[0].kind, TokenKind::And);
    assert_eq!(meaningful[0].lexeme, "and");
    assert_eq!(meaningful[1].kind, TokenKind::Identifier);
    assert_eq!(meaningful[1].lexeme, "andy");
    assert_eq!(meaningful[2].kind, TokenKind::Eof);
}

#[test]
fn all_keywords_are_recognized() {
    let source = "and class else false fun for if nil or print return super this true var while";
    let expected = [
        TokenKind::And,
        TokenKind::Class,
        TokenKind::Else,
        TokenKind::False,
        TokenKind::Fun,
        TokenKind::For,
        TokenKind::If,
        TokenKind::Nil,
        TokenKind::Or,
        TokenKind::Print,
        TokenKind::Return,
        TokenKind::Super,
        TokenKind::This,
        TokenKind::True,
        TokenKind::Var,
        TokenKind::While,
    ];
    let tokens = scan_ok(source);
    let kinds: Vec<TokenKind> = tokens
        .iter()
        .filter(|t| t.kind != TokenKind::Ws && t.kind != TokenKind::Eof)
        .map(|t| t.kind)
        .collect();
    assert_eq!(kinds, expected);
}

#[test]
fn identifier_lexeme_is_kept() {
    let tokens = scan_ok("_private9");
    assert_eq!(tokens[0].kind, TokenKind::Identifier);
    assert_eq!(tokens[0].lexeme, "_private9");
    assert_eq!(tokens[0].literal, None);
}

#[test]
fn only_one_fraction_per_number() {
    let tokens = scan_ok("1.2.3");
    assert_eq!(tokens.len(), 4);
    assert_eq!(tokens[0].kind, TokenKind::Number);
    assert_eq!(tokens[0].lexeme, "1.2");
    assert_eq!(tokens[1].kind, TokenKind::Dot);
    assert_eq!(tokens[2].kind, TokenKind::Number);
    assert_eq!(tokens[2].literal, Some(Literal::Number(Number::Int(3))));
    assert_eq!(tokens[3].kind, TokenKind::Eof);
}

#[test]
fn slashes_inside_a_string_are_not_a_comment() {
    let tokens = scan_ok("\"//not a comment\"");
    assert_eq!(tokens.len(), 2);
    assert_eq!(tokens[0].kind, TokenKind::String);
    match &tokens[0].literal {
        Some(Literal::String(text)) => assert_eq!(text, "//not a comment"),
        other => panic!("expected a string literal, got {:?}", other),
    }
}

#[test]
fn ws_token_keeps_its_character() {
    let tokens = scan_ok("\t");
    assert_eq!(tokens.len(), 2);
    assert_eq!(tokens[0].kind, TokenKind::Ws);
    assert_eq!(tokens[0].lexeme, "\t");
}

#[test]
fn rescanning_yields_identical_token_sequences() {
    let source = "fun add(a, b) { return a + b; } // demo\nprint add(1, 2.5) >= 3;";
    let first = Scanner::new(source).scan();
    let second = Scanner::new(source).scan();
    assert_eq!(first, second);
    let first = first.unwrap();
    let second = second.unwrap();
    assert_eq!(first.len(), second.len());
    for (a, b) in first.iter().zip(second.iter()) {
        assert_eq!(format!("{:?}", a), format!("{:?}", b));
    }
}
