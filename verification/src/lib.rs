//! A compiler for a small procedural language: a scanner that turns source
//! text into located tokens, a recursive-descent parser that builds a
//! function list and a shared data pool of string literals and global
//! names, and a code generator that renders the program as one x86-64
//! assembly unit. Each stage's behaviour is stated against a
//! specification-level model of the same stage, and the first failure of
//! any stage is reported as a structured error; file handling and the
//! external assembler and linker live with the surrounding program, not
//! here.

pub mod config;
pub mod error;
pub mod lexer;
pub mod nasm;
pub mod parser;

use vstd::prelude::*;
use crate::error::{err_file_ok, err_view, CompileError, ErrView};
use crate::lexer::Lexer;
use crate::nasm::{to_linux_nasm_x64, unit_asm, unit_bad_name};
use crate::parser::{empty_data, parse, stdlib_model, TopOut};

verus! {

/// What compiling given source text produces: the first scan, parse or
/// name failure, or the text of the full assembly unit.
pub open spec fn spec_compile(src: Seq<char>) -> Result<Seq<char>, ErrView> {
    match crate::parser::spec_parse_top(src, 0, stdlib_model(), empty_data()) {
        TopOut::Fail { err } => Err(err),
        TopOut::Done { funs, data } => match unit_bad_name(funs) {
            Some(nm) => Err(ErrView::Name(nm)),
            None => Ok(unit_asm(funs, data)),
        },
    }
}

/// Translates source text into one assembly unit: scan, parse and
/// generate, stopping at the first failure of any stage. Nothing here
/// touches a file or a process; the caller writes the text out and runs
/// the toolchain. The length bound leaves room for the scanner's line
/// counter.
pub fn compile_source(filepath: &str, source: &str) -> (r: Result<String, CompileError>)
    requires
        source@.len() < usize::MAX,
    ensures
        match spec_compile(source@) {
            Ok(text) => r matches Ok(s) && s@ == text,
            Err(ev) => r matches Err(e) && err_view(e) == ev && err_file_ok(e, filepath@),
        },
{
    let mut lexer = Lexer::new(filepath, source);
    let parsed = match parse(&mut lexer) {
        Err(e) => {
            return Err(e);
        },
        Ok(p) => p,
    };
    to_linux_nasm_x64(&parsed.0, &parsed.1)
}

} // verus!
