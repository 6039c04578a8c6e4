use typst_math::lexer::{Lexer, Token};
use typst_math::MathError;

fn tokens(input: &str) -> Vec<String> {
    let mut lexer = Lexer::new(input);
    let mut out = Vec::new();
    loop {
        match lexer.next_token() {
            Ok(Token::Eof) => {
                out.push("Eof".to_string());
                break;
            }
            Ok(t) => out.push(format!("{:?}", t)),
            Err(MathError::Lexer { position, message }) => {
                out.push(format!("error {} {}", position, message))
            }
            Err(e) => panic!("unexpected error {:?}", e),
        }
        if out.len() > 100 {
            panic!("lexer does not stop");
        }
    }
    out
}

#[test]
fn lexes_simple_equation() {
    assert_eq!(
        tokens("a + b = c"),
        vec!["Identifier(\"a\")", "Plus", "Identifier(\"b\")", "Equal", "Identifier(\"c\")", "Eof"]
    );
}

#[test]
fn identifiers_take_letters_and_digits() {
    assert_eq!(tokens("x2y abc"), vec!["Identifier(\"x2y\")", "Identifier(\"abc\")", "Eof"]);
}

#[test]
fn numbers_take_the_longest_literal() {
    assert_eq!(tokens("12"), vec!["Number(\"12\")", "Eof"]);
    assert_eq!(tokens("1.5e+3x"), vec!["Number(\"1.5e+3\")", "Identifier(\"x\")", "Eof"]);
    assert_eq!(tokens("2E7"), vec!["Number(\"2E7\")", "Eof"]);
    assert_eq!(tokens("2ex"), vec!["Number(\"2\")", "Identifier(\"ex\")", "Eof"]);
    assert_eq!(tokens("3e-"), vec!["Number(\"3\")", "Identifier(\"e\")", "Minus", "Eof"]);
    assert_eq!(tokens("4ac"), vec!["Number(\"4\")", "Identifier(\"ac\")", "Eof"]);
}

#[test]
fn a_dot_without_digits_is_not_part_of_a_number() {
    assert_eq!(tokens("1.x"), vec!["Number(\"1\")", "error 1 Invalid token", "Identifier(\"x\")", "Eof"]);
    assert_eq!(tokens("1.5.3"), vec!["Number(\"1.5\")", "error 3 Invalid token", "Number(\"3\")", "Eof"]);
}

#[test]
fn operators_and_relations() {
    assert_eq!(
        tokens("<=<>=>!=*/-"),
        vec!["LessEqual", "Less", "GreaterEqual", "Greater", "NotEqual", "Asterisk", "Slash", "Minus", "Eof"]
    );
    assert_eq!(tokens("!"), vec!["error 0 Invalid token", "Eof"]);
}

#[test]
fn brackets_scripts_and_punctuation() {
    assert_eq!(
        tokens("()[]{}|^_,;:"),
        vec![
            "LeftParen", "RightParen", "LeftBracket", "RightBracket", "LeftBrace", "RightBrace",
            "VerticalBar", "Caret", "Underscore", "Comma", "Semicolon", "Colon", "Eof"
        ]
    );
}

#[test]
fn backslash_commands() {
    assert_eq!(
        tokens("\\frac\\sqrt\\sum\\int\\lim\\alpha\\beta\\gamma\\Gamma"),
        vec!["Frac", "Sqrt", "Sum", "Integral", "Limit", "Alpha", "Beta", "Gamma", "CapitalGamma", "Eof"]
    );
    assert_eq!(tokens("\\summation"), vec!["Sum", "Identifier(\"mation\")", "Eof"]);
}

#[test]
fn unknown_command_rejects_only_the_backslash() {
    assert_eq!(tokens("\\pm"), vec!["error 0 Invalid token", "Identifier(\"pm\")", "Eof"]);
    assert_eq!(tokens("\\infty"), vec!["error 0 Invalid token", "Identifier(\"infty\")", "Eof"]);
}

#[test]
fn non_ascii_character_is_rejected_whole() {
    let mut lexer = Lexer::new("\u{3b1}x");
    match lexer.next_token() {
        Err(MathError::Lexer { position, message }) => {
            assert_eq!(position, 0);
            assert_eq!(message, "Invalid token");
        }
        other => panic!("expected an error, got {:?}", other),
    }
    assert_eq!(lexer.span(), 0..2);
    assert!(matches!(lexer.next_token(), Ok(Token::Identifier(ref s)) if s == "x"));
    assert_eq!(lexer.span(), 2..3);
}

#[test]
fn blanks_are_skipped_but_carriage_return_is_not() {
    let mut lexer = Lexer::new(" \t\n\x0c a");
    assert!(matches!(lexer.next_token(), Ok(Token::Identifier(ref s)) if s == "a"));
    assert_eq!(lexer.span(), 5..6);
    assert_eq!(tokens("\r"), vec!["error 0 Invalid token", "Eof"]);
}

#[test]
fn eof_repeats_at_the_end() {
    let mut lexer = Lexer::new("a  ");
    assert!(matches!(lexer.next_token(), Ok(Token::Identifier(_))));
    assert!(matches!(lexer.next_token(), Ok(Token::Eof)));
    assert_eq!(lexer.span(), 3..3);
    assert!(matches!(lexer.next_token(), Ok(Token::Eof)));
    assert_eq!(lexer.span(), 3..3);
}

#[test]
fn peek_does_not_consume() {
    let mut lexer = Lexer::new("x + 1");
    assert!(matches!(lexer.peek_token(), Ok(Token::Identifier(s)) if s == "x"));
    assert!(matches!(lexer.peek_token(), Ok(Token::Identifier(s)) if s == "x"));
    assert_eq!(lexer.span(), 0..1);
    assert!(matches!(lexer.next_token(), Ok(Token::Identifier(ref s)) if s == "x"));
    assert!(matches!(lexer.next_token(), Ok(Token::Plus)));
    assert!(matches!(lexer.peek_token(), Ok(Token::Number(s)) if s == "1"));
    assert!(matches!(lexer.next_token(), Ok(Token::Number(ref s)) if s == "1"));
    assert!(matches!(lexer.peek_token(), Ok(Token::Eof)));
}

#[test]
fn peek_reports_invalid_characters() {
    let mut lexer = Lexer::new("#a");
    match lexer.peek_token() {
        Err(MathError::Lexer { position, .. }) => assert_eq!(position, 0),
        other => panic!("expected an error, got {:?}", other),
    }
    assert!(matches!(lexer.peek_token(), Ok(Token::Identifier(s)) if s == "a"));
}

#[test]
fn token_text_matches_debug_format() {
    let all = vec![
        Token::Identifier("abc".to_string()),
        Token::Number("1.5".to_string()),
        Token::Plus,
        Token::GreaterEqual,
        Token::CapitalGamma,
        Token::RightBrace,
        Token::Eof,
    ];
    for t in all {
        assert_eq!(t.to_text(), format!("{:?}", t));
    }
}

#[test]
fn same_as_compares_variant_and_text() {
    assert!(Token::Plus.same_as(&Token::Plus));
    assert!(!Token::Plus.same_as(&Token::Minus));
    assert!(Token::Identifier("a".to_string()).same_as(&Token::Identifier("a".to_string())));
    assert!(!Token::Identifier("a".to_string()).same_as(&Token::Identifier("b".to_string())));
    assert!(!Token::Identifier("1".to_string()).same_as(&Token::Number("1".to_string())));
}

#[test]
fn spans_move_forward() {
    let mut lexer = Lexer::new("ab + \\frac 12");
    let mut last_end = 0;
    let expected = [0..2, 3..4, 5..10, 11..13];
    for span in expected {
        let t = lexer.next_token().unwrap();
        assert!(!matches!(t, Token::Eof));
        let got = lexer.span();
        assert_eq!(got, span);
        assert!(got.start >= last_end && got.start < got.end);
        last_end = got.end;
    }
    assert!(matches!(lexer.next_token(), Ok(Token::Eof)));
    assert_eq!(lexer.span(), 13..13);
}

#[test]
fn tokens_compare_with_eq() {
    assert_eq!(Token::Caret, Token::Caret);
    assert_ne!(Token::Caret, Token::Underscore);
    assert_eq!(Token::Number("2".to_string()), Token::Number("2".to_string()));
    assert_ne!(Token::Number("2".to_string()), Token::Number("3".to_string()));
    let mut lexer = Lexer::new("x_1");
    assert_eq!(lexer.next_token().unwrap(), Token::Identifier("x".to_string()));
    assert_eq!(lexer.next_token().unwrap(), Token::Underscore);
}
