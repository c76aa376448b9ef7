//! The errors a compilation can end with, carrying structured data; the
//! surrounding program renders them as text and picks the exit status.

use vstd::prelude::*;
use crate::lexer::{kind_view, KindView, Loc, Token, TokenKind};

verus! {

/// The precise reason a scan or parse step found the source text malformed.
#[derive(Debug, Clone, Copy, PartialEq, Eq, Structural)]
pub enum SyntaxErrorKind {
    /// A character that cannot begin any token (a leading digit among them).
    InvalidTokenStart(char),
    /// A backslash escape other than `\n` inside a string literal.
    InvalidEscape(char),
    /// A backslash immediately before the end of the input.
    UnterminatedEscape,
    /// The input ended before the closing quote of a string literal.
    UnterminatedString,
    /// A `fn` keyword not followed by an identifier.
    ExpectedFunctionName,
    /// A top-level token that cannot start a declaration.
    OutsideFunction,
}

/// The first failure of a compilation; the pipeline stops at the point
/// where one arises and hands it to the caller unchanged.
#[derive(Debug, Clone)]
pub enum CompileError {
    /// Malformed source text, with the file and position where it was found.
    Syntax { file: String, loc: Loc, kind: SyntaxErrorKind },
    /// A token of the wrong category where a specific one was required.
    UnexpectedToken { file: String, expected: TokenKind, found: Token },
    /// End of input where a specific token was required.
    UnexpectedEof { file: String, expected: TokenKind },
    /// An identifier that names no declared global or defined function.
    Name { name: String },
}

/// An error at the specification level: the same variants with payloads as
/// plain values, and without the diagnostic location.
pub enum ErrView {
    Syntax(SyntaxErrorKind),
    UnexpectedToken { expected: KindView, found: KindView },
    UnexpectedEof { expected: KindView },
    Name(Seq<char>),
}

/// The specification-level content of an error.
pub open spec fn err_view(e: CompileError) -> ErrView {
    match e {
        CompileError::Syntax { kind, .. } => ErrView::Syntax(kind),
        CompileError::UnexpectedToken { expected, found, .. } => ErrView::UnexpectedToken {
            expected: kind_view(expected),
            found: kind_view(found.kind),
        },
        CompileError::UnexpectedEof { expected, .. } => ErrView::UnexpectedEof {
            expected: kind_view(expected),
        },
        CompileError::Name { name } => ErrView::Name(name@),
    }
}

/// Whether the file name an error carries, where it carries one, is `f`.
pub open spec fn err_file_ok(e: CompileError, f: Seq<char>) -> bool {
    match e {
        CompileError::Syntax { file, .. } => file@ == f,
        CompileError::UnexpectedToken { file, .. } => file@ == f,
        CompileError::UnexpectedEof { file, .. } => file@ == f,
        CompileError::Name { .. } => true,
    }
}

} // verus!
