use programming_language::error::{CompileError, SyntaxErrorKind};
use programming_language::lexer::{Keyword, Lexer, Literal, Token, TokenKind};

fn kinds_of(source: &str) -> Vec<TokenKind> {
    let mut lexer = Lexer::new("test.prl", source);
    let mut kinds = Vec::new();
    loop {
        match lexer.next_token() {
            Ok(Some(Token { kind, .. })) => kinds.push(kind),
            Ok(None) => return kinds,
            Err(e) => panic!("unexpected scan error: {:?}", e),
        }
    }
}

#[test]
fn scan_fn_main_tokens() {
    let kinds = kinds_of("fn main(){}");
    assert_eq!(
        kinds,
        vec![
            TokenKind::Kword(Keyword::Fn),
            TokenKind::Identifier("main".to_string()),
            TokenKind::OpenParen,
            TokenKind::CloseParen,
            TokenKind::OpenCurly,
            TokenKind::CloseCurly,
        ]
    );
    let mut lexer = Lexer::new("test.prl", "fn main(){}");
    for _ in 0..6 {
        assert!(matches!(lexer.next_token(), Ok(Some(_))));
    }
    assert!(matches!(lexer.next_token(), Ok(None)));
}

#[test]
fn scan_spans_ignore_whitespace() {
    let a = kinds_of("fn main(){}");
    let b = kinds_of("  fn\n  main \t ( ) {\n}\n");
    assert_eq!(a, b);
}

#[test]
fn scan_keywords_and_identifiers() {
    let kinds = kinds_of("fn let fnx letter _x a1");
    assert_eq!(
        kinds,
        vec![
            TokenKind::Kword(Keyword::Fn),
            TokenKind::Kword(Keyword::Let),
            TokenKind::Identifier("fnx".to_string()),
            TokenKind::Identifier("letter".to_string()),
            TokenKind::Identifier("_x".to_string()),
            TokenKind::Identifier("a1".to_string()),
        ]
    );
}

#[test]
fn scan_string_escape_decodes_newline() {
    let kinds = kinds_of("\"a\\nb\"");
    assert_eq!(kinds, vec![TokenKind::Litrl(Literal::Str("a\nb".to_string()))]);
}

#[test]
fn scan_string_keeps_inner_whitespace() {
    let kinds = kinds_of("\"a b\tc\"");
    assert_eq!(kinds, vec![TokenKind::Litrl(Literal::Str("a b\tc".to_string()))]);
}

#[test]
fn scan_invalid_escape_fails() {
    let mut lexer = Lexer::new("test.prl", "\"a\\tb\"");
    match lexer.next_token() {
        Err(CompileError::Syntax { kind, file, .. }) => {
            assert_eq!(kind, SyntaxErrorKind::InvalidEscape('t'));
            assert_eq!(file, "test.prl");
        }
        other => panic!("expected invalid escape error, got {:?}", other),
    }
}

#[test]
fn scan_unterminated_string_fails() {
    let mut lexer = Lexer::new("test.prl", "\"abc");
    match lexer.next_token() {
        Err(CompileError::Syntax { kind, .. }) => {
            assert_eq!(kind, SyntaxErrorKind::UnterminatedString);
        }
        other => panic!("expected unterminated string error, got {:?}", other),
    }
}

#[test]
fn scan_lone_backslash_fails() {
    let mut lexer = Lexer::new("test.prl", "\"abc\\");
    match lexer.next_token() {
        Err(CompileError::Syntax { kind, .. }) => {
            assert_eq!(kind, SyntaxErrorKind::UnterminatedEscape);
        }
        other => panic!("expected unterminated escape error, got {:?}", other),
    }
}

#[test]
fn scan_invalid_character_fails() {
    let mut lexer = Lexer::new("test.prl", "  #");
    match lexer.next_token() {
        Err(CompileError::Syntax { kind, .. }) => {
            assert_eq!(kind, SyntaxErrorKind::InvalidTokenStart('#'));
        }
        other => panic!("expected invalid token error, got {:?}", other),
    }
}

#[test]
fn scan_leading_digit_fails() {
    let mut lexer = Lexer::new("test.prl", "9abc");
    match lexer.next_token() {
        Err(CompileError::Syntax { kind, .. }) => {
            assert_eq!(kind, SyntaxErrorKind::InvalidTokenStart('9'));
        }
        other => panic!("expected invalid token error, got {:?}", other),
    }
}

#[test]
fn expect_matches_category_only() {
    let mut lexer = Lexer::new("test.prl", "( abc");
    assert!(lexer.expect(TokenKind::OpenParen).is_ok());
    let got = lexer.expect(TokenKind::Identifier("other".to_string()));
    match got {
        Ok(tok) => assert_eq!(tok.kind, TokenKind::Identifier("abc".to_string())),
        other => panic!("expected identifier token, got {:?}", other),
    }
}

#[test]
fn expect_mismatch_reports_both() {
    let mut lexer = Lexer::new("test.prl", "}");
    match lexer.expect(TokenKind::OpenParen) {
        Err(CompileError::UnexpectedToken { expected, found, .. }) => {
            assert_eq!(expected, TokenKind::OpenParen);
            assert_eq!(found.kind, TokenKind::CloseCurly);
        }
        other => panic!("expected mismatch error, got {:?}", other),
    }
}

#[test]
fn expect_at_end_of_input() {
    let mut lexer = Lexer::new("test.prl", "   ");
    match lexer.expect(TokenKind::CloseParen) {
        Err(CompileError::UnexpectedEof { expected, file }) => {
            assert_eq!(expected, TokenKind::CloseParen);
            assert_eq!(file, "test.prl");
        }
        other => panic!("expected end-of-input error, got {:?}", other),
    }
}

#[test]
fn loc_tracks_lines() {
    let mut lexer = Lexer::new("test.prl", "fn\nmain");
    let first = lexer.next_token().unwrap().unwrap();
    assert_eq!(first.loc.line, 1);
    let second = lexer.next_token().unwrap().unwrap();
    assert_eq!(second.loc.line, 2);
}
