use programming_language::error::{CompileError, SyntaxErrorKind};
use programming_language::lexer::{Lexer, TokenKind};
use programming_language::parser::{parse, Data, Expr, Function, Intrinsic};

fn parse_source(source: &str) -> Result<(Vec<Function>, Data), CompileError> {
    let mut lexer = Lexer::new("test.prl", source);
    parse(&mut lexer)
}

#[test]
fn parse_empty_program_yields_library() {
    let (funs, data) = parse_source("").unwrap();
    assert_eq!(funs.len(), 2);
    assert_eq!(funs[0].name, "print");
    assert_eq!(funs[1].name, "print_num");
    assert!(matches!(funs[0].exprs[..], [Expr::Intrinsic(Intrinsic::Print)]));
    assert!(matches!(funs[1].exprs[..], [Expr::Intrinsic(Intrinsic::PrintNum)]));
    assert!(data.strings.is_empty());
    assert!(data.globals.is_empty());
}

#[test]
fn parse_user_function_follows_library() {
    let (funs, _) = parse_source("fn main(){}").unwrap();
    assert_eq!(funs.len(), 3);
    assert_eq!(funs[2].name, "main");
    assert!(funs[2].exprs.is_empty());
}

#[test]
fn parse_duplicate_literals_get_distinct_indices() {
    let (funs, data) = parse_source("fn main(){ print(\"hi\"); print(\"hi\"); }").unwrap();
    assert_eq!(data.strings, vec!["hi".to_string(), "hi".to_string()]);
    let main = &funs[2];
    assert_eq!(main.exprs.len(), 2);
    match (&main.exprs[0], &main.exprs[1]) {
        (
            Expr::Funcall { args: args0, .. },
            Expr::Funcall { args: args1, .. },
        ) => {
            assert!(matches!(args0[..], [Expr::StrLit { n: 0, len: 2 }]));
            assert!(matches!(args1[..], [Expr::StrLit { n: 1, len: 2 }]));
        }
        other => panic!("expected two calls, got {:?}", other),
    }
}

#[test]
fn parse_undeclared_global_rejected() {
    match parse_source("fn main(){ print(x); }") {
        Err(CompileError::Name { name }) => assert_eq!(name, "x"),
        other => panic!("expected name error, got {:?}", other),
    }
}

#[test]
fn parse_declared_global_accepted() {
    let (funs, data) = parse_source("let x; fn main(){ print(x); }").unwrap();
    assert_eq!(data.globals, vec!["x".to_string()]);
    match &funs[2].exprs[0] {
        Expr::Funcall { name, args } => {
            assert_eq!(name, "print");
            assert!(matches!(&args[..], [Expr::Var(v)] if v == "x"));
        }
        other => panic!("expected a call, got {:?}", other),
    }
}

#[test]
fn parse_global_declared_after_use_rejected() {
    match parse_source("fn main(){ print(x); } let x;") {
        Err(CompileError::Name { name }) => assert_eq!(name, "x"),
        other => panic!("expected name error, got {:?}", other),
    }
}

#[test]
fn parse_let_ignores_non_identifier() {
    let (_, data) = parse_source("let ; fn main(){}").unwrap();
    assert!(data.globals.is_empty());
}

#[test]
fn parse_let_at_end_of_input() {
    let (funs, data) = parse_source("fn main(){} let").unwrap();
    assert_eq!(funs.len(), 3);
    assert!(data.globals.is_empty());
}

#[test]
fn parse_stray_semicolons_tolerated() {
    let (funs, _) = parse_source("; fn main(){ ; } ;").unwrap();
    assert_eq!(funs.len(), 3);
}

#[test]
fn parse_mixed_arguments_with_commas() {
    let (funs, data) =
        parse_source("let g; fn main(){ print(\"a\", g, \"b\"); }").unwrap();
    assert_eq!(data.strings, vec!["a".to_string(), "b".to_string()]);
    match &funs[2].exprs[0] {
        Expr::Funcall { args, .. } => {
            assert_eq!(args.len(), 3);
            assert!(matches!(args[0], Expr::StrLit { n: 0, len: 1 }));
            assert!(matches!(&args[1], Expr::Var(v) if v == "g"));
            assert!(matches!(args[2], Expr::StrLit { n: 1, len: 1 }));
        }
        other => panic!("expected a call, got {:?}", other),
    }
}

#[test]
fn parse_top_level_stray_token_rejected() {
    match parse_source("main") {
        Err(CompileError::Syntax { kind, .. }) => {
            assert_eq!(kind, SyntaxErrorKind::OutsideFunction);
        }
        other => panic!("expected syntax error, got {:?}", other),
    }
}

#[test]
fn parse_missing_function_name_rejected() {
    match parse_source("fn (){}") {
        Err(CompileError::Syntax { kind, .. }) => {
            assert_eq!(kind, SyntaxErrorKind::ExpectedFunctionName);
        }
        other => panic!("expected syntax error, got {:?}", other),
    }
}

#[test]
fn parse_missing_parenthesis_rejected() {
    match parse_source("fn main({}") {
        Err(CompileError::UnexpectedToken { expected, found, .. }) => {
            assert_eq!(expected, TokenKind::CloseParen);
            assert_eq!(found.kind, TokenKind::OpenCurly);
        }
        other => panic!("expected mismatch error, got {:?}", other),
    }
}

#[test]
fn parse_unclosed_body_rejected() {
    match parse_source("fn main(){ print(\"a\");") {
        Err(CompileError::UnexpectedEof { expected, .. }) => {
            assert_eq!(expected, TokenKind::CloseCurly);
        }
        other => panic!("expected end-of-input error, got {:?}", other),
    }
}

#[test]
fn parse_unknown_callee_accepted() {
    let (funs, _) = parse_source("fn main(){ foo(); }").unwrap();
    match &funs[2].exprs[0] {
        Expr::Funcall { name, args } => {
            assert_eq!(name, "foo");
            assert!(args.is_empty());
        }
        other => panic!("expected a call, got {:?}", other),
    }
}

#[test]
fn data_default_is_empty() {
    let d = Data::default();
    assert!(d.strings.is_empty());
    assert!(d.globals.is_empty());
}
