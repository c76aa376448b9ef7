//! Parsing: a pull-based walk over the token stream that builds the
//! function list and the program data pool, specified by recursive
//! grammar functions over the same stream, together with the laws of what
//! a finished parse guarantees about pool indices and global references.

use vstd::prelude::*;
use vstd::string::StringExecFns;
use vstd::utf8::encode_utf8;
use crate::error::{err_file_ok, err_view, CompileError, ErrView, SyntaxErrorKind};
use crate::lexer::{
    kind_view, lemma_next_tok_bounds, lemma_spec_expect_bounds, next_tok, spec_expect, ExpectOut,
    Keyword, Lexer, Literal, KindView, Scan, TokenKind,
};

verus! {

// ---------------------------------------------------------------------------
// The syntax tree and the program data pool
// ---------------------------------------------------------------------------

/// An expression in a function body.
#[derive(Debug)]
pub enum Expr {
    /// A call, resolved against the function list only at generation time.
    Funcall { name: String, args: Vec<Expr> },
    /// A reference into the string pool: position and byte length.
    StrLit { n: usize, len: usize },
    /// A primitive with a fixed instruction template in place of a body.
    Intrinsic(Intrinsic),
    /// A reference to a global declared before this point.
    Var(String),
}

/// The primitives the library function list is seeded with.
#[derive(Debug, Clone, Copy, PartialEq, Eq, Structural)]
pub enum Intrinsic {
    Print,
    PrintNum,
}

/// A function definition: the library primitives and parsed user functions
/// share this shape.
#[derive(Debug)]
pub struct Function {
    pub name: String,
    pub exprs: Vec<Expr>,
}

/// The program data pool: decoded string literals and declared global
/// names, both append-only while parsing runs.
#[derive(Debug)]
pub struct Data {
    pub strings: Vec<String>,
    pub globals: Vec<String>,
}

// ---------------------------------------------------------------------------
// Specification-level views of the tree
// ---------------------------------------------------------------------------

/// An expression with every payload a plain value.
pub enum ExprModel {
    Funcall { name: Seq<char>, args: Seq<ExprModel> },
    StrLit { n: int, len: int },
    Intrinsic(Intrinsic),
    Var(Seq<char>),
}

/// A function definition at the specification level.
pub struct FunModel {
    pub name: Seq<char>,
    pub exprs: Seq<ExprModel>,
}

/// The data pool at the specification level.
pub struct DataModel {
    pub strings: Seq<Seq<char>>,
    pub globals: Seq<Seq<char>>,
}

pub open spec fn expr_view(e: Expr) -> ExprModel
    decreases e,
{
    match e {
        Expr::Funcall { name, args } => ExprModel::Funcall {
            name: name@,
            args: exprs_view(args@),
        },
        Expr::StrLit { n, len } => ExprModel::StrLit { n: n as int, len: len as int },
        Expr::Intrinsic(i) => ExprModel::Intrinsic(i),
        Expr::Var(s) => ExprModel::Var(s@),
    }
}

pub open spec fn exprs_view(es: Seq<Expr>) -> Seq<ExprModel>
    decreases es,
{
    if es.len() == 0 {
        Seq::empty()
    } else {
        seq![expr_view(es[0])] + exprs_view(es.drop_first())
    }
}

pub proof fn lemma_exprs_view_index(es: Seq<Expr>)
    ensures
        exprs_view(es).len() == es.len(),
        forall|i: int| 0 <= i < es.len() ==> exprs_view(es)[i] == expr_view(es[i]),
    decreases es.len(),
{
    if es.len() > 0 {
        lemma_exprs_view_index(es.drop_first());
    }
}

pub open spec fn fun_view(f: Function) -> FunModel {
    FunModel { name: f.name@, exprs: exprs_view(f.exprs@) }
}

pub open spec fn funs_view(fs: Seq<Function>) -> Seq<FunModel> {
    fs.map_values(|f: Function| fun_view(f))
}

pub open spec fn strs_view(v: Seq<String>) -> Seq<Seq<char>> {
    v.map_values(|s: String| s@)
}

pub open spec fn data_view(d: Data) -> DataModel {
    DataModel { strings: strs_view(d.strings@), globals: strs_view(d.globals@) }
}

pub proof fn lemma_exprs_view_push(es: Seq<Expr>, e: Expr)
    ensures
        exprs_view(es.push(e)) == exprs_view(es).push(expr_view(e)),
{
    lemma_exprs_view_index(es);
    lemma_exprs_view_index(es.push(e));
    assert forall|i: int| 0 <= i < es.len() + 1 implies exprs_view(es.push(e))[i] == exprs_view(
        es,
    ).push(expr_view(e))[i] by {
        if i < es.len() {
            assert(es.push(e)[i] == es[i]);
        } else {
            assert(es.push(e)[i] == e);
        }
    }
    assert(exprs_view(es.push(e)) =~= exprs_view(es).push(expr_view(e)));
}

pub proof fn lemma_funs_view_push(fs: Seq<Function>, f: Function)
    ensures
        funs_view(fs.push(f)) == funs_view(fs).push(fun_view(f)),
{
    assert(funs_view(fs.push(f)) =~= funs_view(fs).push(fun_view(f)));
}

pub proof fn lemma_strs_view_push(v: Seq<String>, s: String)
    ensures
        strs_view(v.push(s)) == strs_view(v).push(s@),
{
    assert(strs_view(v.push(s)) =~= strs_view(v).push(s@));
}

// ---------------------------------------------------------------------------
// The grammar, as specification functions over the token stream
// ---------------------------------------------------------------------------

/// The byte length a string literal reports: the length of its UTF-8
/// encoding, clipped the way the platform reports lengths.
pub open spec fn byte_len(s: Seq<char>) -> int {
    encode_utf8(s).len() as usize as int
}

/// The outcome of parsing an argument list.
pub enum ArgsOut {
    Args { args: Seq<ExprModel>, data: DataModel, end: int },
    Fail { err: ErrView },
}

/// Parses the arguments of a call after the opening parenthesis, having
/// collected `args` so far: a string literal takes the next pool index and
/// its decoded text joins the pool; an identifier must already be a
/// declared global; a comma is skipped; the closing parenthesis ends the
/// list.
pub open spec fn spec_parse_args(
    src: Seq<char>,
    i: int,
    args: Seq<ExprModel>,
    data: DataModel,
) -> ArgsOut
    decreases src.len() - i when 0 <= i <= src.len() via spec_parse_args_dec
{
    match next_tok(src, i) {
        Scan::End => ArgsOut::Fail {
            err: ErrView::UnexpectedEof { expected: kind_view(TokenKind::CloseParen) },
        },
        Scan::Fail { err } => ArgsOut::Fail { err: ErrView::Syntax(err) },
        Scan::Tok { kind, end } => match kind {
            KindView::Litrl(text) => spec_parse_args(
                src,
                end,
                args.push(ExprModel::StrLit { n: data.strings.len() as int, len: byte_len(text) }),
                DataModel { strings: data.strings.push(text), globals: data.globals },
            ),
            KindView::Identifier(name) => if data.globals.contains(name) {
                spec_parse_args(src, end, args.push(ExprModel::Var(name)), data)
            } else {
                ArgsOut::Fail { err: ErrView::Name(name) }
            },
            KindView::CloseParen => ArgsOut::Args { args, data, end },
            KindView::Comma => spec_parse_args(src, end, args, data),
            _ => ArgsOut::Fail {
                err: ErrView::UnexpectedToken {
                    expected: kind_view(TokenKind::CloseParen),
                    found: kind,
                },
            },
        },
    }
}

#[via_fn]
proof fn spec_parse_args_dec(src: Seq<char>, i: int, args: Seq<ExprModel>, data: DataModel) {
    lemma_next_tok_bounds(src, i);
}

pub proof fn lemma_parse_args_bounds(src: Seq<char>, i: int, args: Seq<ExprModel>, data: DataModel)
    requires
        0 <= i <= src.len(),
    ensures
        spec_parse_args(src, i, args, data) matches ArgsOut::Args { end, .. } ==> i < end
            <= src.len(),
    decreases src.len() - i,
{
    lemma_next_tok_bounds(src, i);
    match next_tok(src, i) {
        Scan::Tok { kind, end } => match kind {
            KindView::Litrl(text) => {
                lemma_parse_args_bounds(
                    src,
                    end,
                    args.push(
                        ExprModel::StrLit { n: data.strings.len() as int, len: byte_len(text) },
                    ),
                    DataModel { strings: data.strings.push(text), globals: data.globals },
                );
            },
            KindView::Identifier(name) => {
                if data.globals.contains(name) {
                    lemma_parse_args_bounds(src, end, args.push(ExprModel::Var(name)), data);
                }
            },
            KindView::Comma => {
                lemma_parse_args_bounds(src, end, args, data);
            },
            _ => {},
        },
        _ => {},
    }
}

/// The outcome of parsing a function body.
pub enum BodyOut {
    Body { exprs: Seq<ExprModel>, data: DataModel, end: int },
    Fail { err: ErrView },
}

/// Parses statements until the closing brace: an identifier must be
/// followed by an argument list and becomes a call; semicolons are
/// skipped.
pub open spec fn spec_parse_body(
    src: Seq<char>,
    i: int,
    exprs: Seq<ExprModel>,
    data: DataModel,
) -> BodyOut
    decreases src.len() - i when 0 <= i <= src.len() via spec_parse_body_dec
{
    match next_tok(src, i) {
        Scan::End => BodyOut::Fail {
            err: ErrView::UnexpectedEof { expected: kind_view(TokenKind::CloseCurly) },
        },
        Scan::Fail { err } => BodyOut::Fail { err: ErrView::Syntax(err) },
        Scan::Tok { kind, end } => match kind {
            KindView::Identifier(fname) => match spec_expect(src, end, TokenKind::OpenParen) {
                ExpectOut::Failed { err } => BodyOut::Fail { err },
                ExpectOut::Got { end: e1 } => match spec_parse_args(src, e1, Seq::empty(), data) {
                    ArgsOut::Fail { err } => BodyOut::Fail { err },
                    ArgsOut::Args { args, data: d2, end: e2 } => spec_parse_body(
                        src,
                        e2,
                        exprs.push(ExprModel::Funcall { name: fname, args }),
                        d2,
                    ),
                },
            },
            KindView::CloseCurly => BodyOut::Body { exprs, data, end },
            KindView::Semicolon => spec_parse_body(src, end, exprs, data),
            _ => BodyOut::Fail {
                err: ErrView::UnexpectedToken {
                    expected: kind_view(TokenKind::CloseCurly),
                    found: kind,
                },
            },
        },
    }
}

#[via_fn]
proof fn spec_parse_body_dec(src: Seq<char>, i: int, exprs: Seq<ExprModel>, data: DataModel) {
    lemma_next_tok_bounds(src, i);
    match next_tok(src, i) {
        Scan::Tok { kind, end } => match kind {
            KindView::Identifier(fname) => {
                lemma_spec_expect_bounds(src, end, TokenKind::OpenParen);
                match spec_expect(src, end, TokenKind::OpenParen) {
                    ExpectOut::Got { end: e1 } => {
                        lemma_parse_args_bounds(src, e1, Seq::empty(), data);
                    },
                    _ => {},
                }
            },
            _ => {},
        },
        _ => {},
    }
}

pub proof fn lemma_parse_body_bounds(src: Seq<char>, i: int, exprs: Seq<ExprModel>, data: DataModel)
    requires
        0 <= i <= src.len(),
    ensures
        spec_parse_body(src, i, exprs, data) matches BodyOut::Body { end, .. } ==> i < end
            <= src.len(),
    decreases src.len() - i,
{
    lemma_next_tok_bounds(src, i);
    match next_tok(src, i) {
        Scan::Tok { kind, end } => match kind {
            KindView::Identifier(fname) => {
                lemma_spec_expect_bounds(src, end, TokenKind::OpenParen);
                match spec_expect(src, end, TokenKind::OpenParen) {
                    ExpectOut::Got { end: e1 } => {
                        lemma_parse_args_bounds(src, e1, Seq::empty(), data);
                        match spec_parse_args(src, e1, Seq::empty(), data) {
                            ArgsOut::Args { args, data: d2, end: e2 } => {
                                lemma_parse_body_bounds(
                                    src,
                                    e2,
                                    exprs.push(ExprModel::Funcall { name: fname, args }),
                                    d2,
                                );
                            },
                            _ => {},
                        }
                    },
                    _ => {},
                }
            },
            KindView::Semicolon => {
                lemma_parse_body_bounds(src, end, exprs, data);
            },
            _ => {},
        },
        _ => {},
    }
}

/// The outcome of parsing one function definition.
pub enum FnOut {
    Fun { fun: FunModel, data: DataModel, end: int },
    Fail { err: ErrView },
}

/// Parses a function definition after the `fn` keyword: a name, an empty
/// parameter list, and a braced body.
pub open spec fn spec_parse_fn(src: Seq<char>, i: int, data: DataModel) -> FnOut
    recommends
        0 <= i <= src.len(),
{
    match next_tok(src, i) {
        Scan::Fail { err } => FnOut::Fail { err: ErrView::Syntax(err) },
        Scan::Tok { kind: KindView::Identifier(name), end } => match spec_expect(
            src,
            end,
            TokenKind::OpenParen,
        ) {
            ExpectOut::Failed { err } => FnOut::Fail { err },
            ExpectOut::Got { end: e1 } => match spec_expect(src, e1, TokenKind::CloseParen) {
                ExpectOut::Failed { err } => FnOut::Fail { err },
                ExpectOut::Got { end: e2 } => match spec_expect(src, e2, TokenKind::OpenCurly) {
                    ExpectOut::Failed { err } => FnOut::Fail { err },
                    ExpectOut::Got { end: e3 } => match spec_parse_body(
                        src,
                        e3,
                        Seq::empty(),
                        data,
                    ) {
                        BodyOut::Fail { err } => FnOut::Fail { err },
                        BodyOut::Body { exprs, data: d2, end: e4 } => FnOut::Fun {
                            fun: FunModel { name, exprs },
                            data: d2,
                            end: e4,
                        },
                    },
                },
            },
        },
        _ => FnOut::Fail { err: ErrView::Syntax(SyntaxErrorKind::ExpectedFunctionName) },
    }
}

pub proof fn lemma_parse_fn_bounds(src: Seq<char>, i: int, data: DataModel)
    requires
        0 <= i <= src.len(),
    ensures
        spec_parse_fn(src, i, data) matches FnOut::Fun { end, .. } ==> i < end <= src.len(),
{
    lemma_next_tok_bounds(src, i);
    match next_tok(src, i) {
        Scan::Tok { kind: KindView::Identifier(name), end } => {
            lemma_spec_expect_bounds(src, end, TokenKind::OpenParen);
            match spec_expect(src, end, TokenKind::OpenParen) {
                ExpectOut::Got { end: e1 } => {
                    lemma_spec_expect_bounds(src, e1, TokenKind::CloseParen);
                    match spec_expect(src, e1, TokenKind::CloseParen) {
                        ExpectOut::Got { end: e2 } => {
                            lemma_spec_expect_bounds(src, e2, TokenKind::OpenCurly);
                            match spec_expect(src, e2, TokenKind::OpenCurly) {
                                ExpectOut::Got { end: e3 } => {
                                    lemma_parse_body_bounds(src, e3, Seq::empty(), data);
                                },
                                _ => {},
                            }
                        },
                        _ => {},
                    }
                },
                _ => {},
            }
        },
        _ => {},
    }
}

/// The outcome of parsing a whole program.
pub enum TopOut {
    Done { funs: Seq<FunModel>, data: DataModel },
    Fail { err: ErrView },
}

/// Parses top-level declarations until the input ends: `fn` begins a
/// function definition, `let` pulls one token and declares it as a global
/// when it is an identifier (anything else is consumed and ignored), a
/// stray semicolon is skipped, and any other token is a syntax error.
pub open spec fn spec_parse_top(
    src: Seq<char>,
    i: int,
    funs: Seq<FunModel>,
    data: DataModel,
) -> TopOut
    decreases src.len() - i when 0 <= i <= src.len() via spec_parse_top_dec
{
    match next_tok(src, i) {
        Scan::End => TopOut::Done { funs, data },
        Scan::Fail { err } => TopOut::Fail { err: ErrView::Syntax(err) },
        Scan::Tok { kind, end } => match kind {
            KindView::Kword(Keyword::Fn) => match spec_parse_fn(src, end, data) {
                FnOut::Fail { err } => TopOut::Fail { err },
                FnOut::Fun { fun, data: d2, end: e2 } => spec_parse_top(
                    src,
                    e2,
                    funs.push(fun),
                    d2,
                ),
            },
            KindView::Kword(Keyword::Let) => match next_tok(src, end) {
                Scan::End => TopOut::Done { funs, data },
                Scan::Fail { err } => TopOut::Fail { err: ErrView::Syntax(err) },
                Scan::Tok { kind: k2, end: e2 } => match k2 {
                    KindView::Identifier(nm) => spec_parse_top(
                        src,
                        e2,
                        funs,
                        DataModel { strings: data.strings, globals: data.globals.push(nm) },
                    ),
                    _ => spec_parse_top(src, e2, funs, data),
                },
            },
            KindView::Semicolon => spec_parse_top(src, end, funs, data),
            _ => TopOut::Fail { err: ErrView::Syntax(SyntaxErrorKind::OutsideFunction) },
        },
    }
}

#[via_fn]
proof fn spec_parse_top_dec(src: Seq<char>, i: int, funs: Seq<FunModel>, data: DataModel) {
    lemma_next_tok_bounds(src, i);
    match next_tok(src, i) {
        Scan::Tok { kind, end } => match kind {
            KindView::Kword(Keyword::Fn) => {
                lemma_parse_fn_bounds(src, end, data);
            },
            KindView::Kword(Keyword::Let) => {
                lemma_next_tok_bounds(src, end);
            },
            _ => {},
        },
        _ => {},
    }
}

/// The function list every compilation starts from: the two library
/// primitives, in this order, before any user function.
pub open spec fn stdlib_model() -> Seq<FunModel> {
    seq![
        FunModel { name: "print"@, exprs: seq![ExprModel::Intrinsic(Intrinsic::Print)] },
        FunModel { name: "print_num"@, exprs: seq![ExprModel::Intrinsic(Intrinsic::PrintNum)] },
    ]
}

/// The empty data pool a compilation starts from.
pub open spec fn empty_data() -> DataModel {
    DataModel { strings: Seq::empty(), globals: Seq::empty() }
}

// ---------------------------------------------------------------------------
// The parser
// ---------------------------------------------------------------------------

impl Default for Data {
    /// An empty pool.
    fn default() -> (d: Data)
        ensures
            data_view(d) == empty_data(),
    {
        let d = Data { strings: Vec::new(), globals: Vec::new() };
        proof {
            assert(strs_view(d.strings@) =~= Seq::<Seq<char>>::empty());
            assert(strs_view(d.globals@) =~= Seq::<Seq<char>>::empty());
        }
        d
    }
}

fn contains_string(v: &Vec<String>, s: &String) -> (r: bool)
    ensures
        r == strs_view(v@).contains(s@),
{
    let mut k: usize = 0;
    while k < v.len()
        invariant
            0 <= k <= v@.len(),
            forall|j: int| 0 <= j < k ==> v@[j]@ != s@,
        decreases v@.len() - k,
    {
        if v[k] == *s {
            proof {
                assert(strs_view(v@)[k as int] == s@);
            }
            return true;
        }
        k += 1;
    }
    proof {
        assert forall|j: int| 0 <= j < strs_view(v@).len() implies strs_view(v@)[j] != s@ by {
            assert(strs_view(v@)[j] == v@[j]@);
        }
    }
    false
}

fn parse_args(lexer: &mut Lexer, data: &mut Data) -> (r: Result<Vec<Expr>, CompileError>)
    requires
        old(lexer).wf(),
    ensures
        final(lexer).wf(),
        final(lexer).src() == old(lexer).src(),
        final(lexer).file_view() == old(lexer).file_view(),
        match spec_parse_args(
            old(lexer).src(),
            old(lexer).pos(),
            Seq::empty(),
            data_view(*old(data)),
        ) {
            ArgsOut::Args { args, data: d2, end } => {
                &&& r matches Ok(v) && exprs_view(v@) == args
                &&& data_view(*final(data)) == d2
                &&& final(lexer).pos() == end
            },
            ArgsOut::Fail { err } => r matches Err(e) && err_view(e) == err && err_file_ok(
                e,
                old(lexer).file_view(),
            ),
        },
{
    let mut args: Vec<Expr> = Vec::new();
    proof {
        assert(exprs_view(args@) == Seq::<ExprModel>::empty());
    }
    loop
        invariant
            lexer.wf(),
            lexer.src() == old(lexer).src(),
            lexer.file_view() == old(lexer).file_view(),
            0 <= lexer.pos() <= lexer.src().len(),
            spec_parse_args(
                old(lexer).src(),
                old(lexer).pos(),
                Seq::empty(),
                data_view(*old(data)),
            ) == spec_parse_args(
                old(lexer).src(),
                lexer.pos(),
                exprs_view(args@),
                data_view(*data),
            ),
        decreases lexer.src().len() - lexer.pos(),
    {
        let ghost src = lexer.src();
        let ghost pre = lexer.pos();
        proof {
            lemma_next_tok_bounds(src, pre);
        }
        match lexer.next_token() {
            Err(e) => {
                return Err(e);
            },
            Ok(None) => {
                return Err(
                    CompileError::UnexpectedEof {
                        file: lexer.file_name(),
                        expected: TokenKind::CloseParen,
                    },
                );
            },
            Ok(Some(token)) => match token.kind {
                TokenKind::Litrl(Literal::Str(text)) => {
                    let n = data.strings.len();
                    let len = text.as_str().len();
                    proof {
                        lemma_exprs_view_push(args@, Expr::StrLit { n, len });
                        lemma_strs_view_push(data.strings@, text);
                    }
                    args.push(Expr::StrLit { n, len });
                    data.strings.push(text);
                },
                TokenKind::Identifier(name) => {
                    if contains_string(&data.globals, &name) {
                        proof {
                            lemma_exprs_view_push(args@, Expr::Var(name));
                        }
                        args.push(Expr::Var(name));
                    } else {
                        return Err(CompileError::Name { name });
                    }
                },
                TokenKind::CloseParen => {
                    return Ok(args);
                },
                TokenKind::Comma => {},
                _ => {
                    return Err(
                        CompileError::UnexpectedToken {
                            file: lexer.file_name(),
                            expected: TokenKind::CloseParen,
                            found: token,
                        },
                    );
                },
            },
        }
    }
}

fn parse_fn(lexer: &mut Lexer, data: &mut Data) -> (r: Result<Function, CompileError>)
    requires
        old(lexer).wf(),
    ensures
        final(lexer).wf(),
        final(lexer).src() == old(lexer).src(),
        final(lexer).file_view() == old(lexer).file_view(),
        match spec_parse_fn(old(lexer).src(), old(lexer).pos(), data_view(*old(data))) {
            FnOut::Fun { fun, data: d2, end } => {
                &&& r matches Ok(f) && fun_view(f) == fun
                &&& data_view(*final(data)) == d2
                &&& final(lexer).pos() == end
            },
            FnOut::Fail { err } => r matches Err(e) && err_view(e) == err && err_file_ok(
                e,
                old(lexer).file_view(),
            ),
        },
{
    let name: String;
    match lexer.next_token() {
        Err(e) => {
            return Err(e);
        },
        Ok(None) => {
            return Err(
                CompileError::Syntax {
                    file: lexer.file_name(),
                    loc: lexer.loc(),
                    kind: SyntaxErrorKind::ExpectedFunctionName,
                },
            );
        },
        Ok(Some(tok)) => match tok.kind {
            TokenKind::Identifier(fname) => {
                name = fname;
            },
            _ => {
                return Err(
                    CompileError::Syntax {
                        file: lexer.file_name(),
                        loc: lexer.loc(),
                        kind: SyntaxErrorKind::ExpectedFunctionName,
                    },
                );
            },
        },
    }
    match lexer.expect(TokenKind::OpenParen) {
        Err(e) => {
            return Err(e);
        },
        Ok(_) => {},
    }
    match lexer.expect(TokenKind::CloseParen) {
        Err(e) => {
            return Err(e);
        },
        Ok(_) => {},
    }
    match lexer.expect(TokenKind::OpenCurly) {
        Err(e) => {
            return Err(e);
        },
        Ok(_) => {},
    }
    let mut exprs: Vec<Expr> = Vec::new();
    loop
        invariant
            lexer.wf(),
            lexer.src() == old(lexer).src(),
            lexer.file_view() == old(lexer).file_view(),
            0 <= lexer.pos() <= lexer.src().len(),
            spec_parse_fn(old(lexer).src(), old(lexer).pos(), data_view(*old(data))) == (
            match spec_parse_body(
                old(lexer).src(),
                lexer.pos(),
                exprs_view(exprs@),
                data_view(*data),
            ) {
                BodyOut::Body { exprs: es, data: d2, end } => FnOut::Fun {
                    fun: FunModel { name: name@, exprs: es },
                    data: d2,
                    end,
                },
                BodyOut::Fail { err } => FnOut::Fail { err },
            }),
        decreases lexer.src().len() - lexer.pos(),
    {
        proof {
            lemma_next_tok_bounds(lexer.src(), lexer.pos());
        }
        match lexer.next_token() {
            Err(e) => {
                return Err(e);
            },
            Ok(None) => {
                return Err(
                    CompileError::UnexpectedEof {
                        file: lexer.file_name(),
                        expected: TokenKind::CloseCurly,
                    },
                );
            },
            Ok(Some(token)) => match token.kind {
                TokenKind::Identifier(text) => {
                    let ghost p1 = lexer.pos();
                    match lexer.expect(TokenKind::OpenParen) {
                        Err(e) => {
                            return Err(e);
                        },
                        Ok(_) => {},
                    }
                    let ghost p2 = lexer.pos();
                    let ghost d2 = data_view(*data);
                    proof {
                        lemma_spec_expect_bounds(lexer.src(), p1, TokenKind::OpenParen);
                    }
                    match parse_args(lexer, data) {
                        Err(e) => {
                            return Err(e);
                        },
                        Ok(fargs) => {
                            let fc = Expr::Funcall { name: text, args: fargs };
                            proof {
                                lemma_parse_args_bounds(lexer.src(), p2, Seq::empty(), d2);
                                lemma_exprs_view_push(exprs@, fc);
                            }
                            exprs.push(fc);
                        },
                    }
                },
                TokenKind::CloseCurly => {
                    return Ok(Function { name, exprs });
                },
                TokenKind::Semicolon => {},
                _ => {
                    return Err(
                        CompileError::UnexpectedToken {
                            file: lexer.file_name(),
                            expected: TokenKind::CloseCurly,
                            found: token,
                        },
                    );
                },
            },
        }
    }
}

fn stdlib() -> (r: Vec<Function>)
    ensures
        funs_view(r@) == stdlib_model(),
{
    let mut print_body: Vec<Expr> = Vec::new();
    print_body.push(Expr::Intrinsic(Intrinsic::Print));
    let mut print_num_body: Vec<Expr> = Vec::new();
    print_num_body.push(Expr::Intrinsic(Intrinsic::PrintNum));
    let mut funs: Vec<Function> = Vec::new();
    funs.push(Function { name: String::from_str("print"), exprs: print_body });
    funs.push(Function { name: String::from_str("print_num"), exprs: print_num_body });
    proof {
        let m = funs_view(funs@);
        assert(m[0] == fun_view(funs@[0]));
        assert(m[1] == fun_view(funs@[1]));
        lemma_exprs_view_index(funs@[0].exprs@);
        lemma_exprs_view_index(funs@[1].exprs@);
        assert(m[0].exprs =~= seq![ExprModel::Intrinsic(Intrinsic::Print)]);
        assert(m[1].exprs =~= seq![ExprModel::Intrinsic(Intrinsic::PrintNum)]);
        assert(m =~= stdlib_model());
    }
    funs
}

/// Parses a whole program into the function list (seeded with the library
/// primitives) and the data pool. Callee names in calls are not checked
/// here; globals referenced as arguments are.
pub fn parse(lexer: &mut Lexer) -> (r: Result<(Vec<Function>, Data), CompileError>)
    requires
        old(lexer).wf(),
    ensures
        final(lexer).wf(),
        final(lexer).src() == old(lexer).src(),
        final(lexer).file_view() == old(lexer).file_view(),
        match spec_parse_top(old(lexer).src(), old(lexer).pos(), stdlib_model(), empty_data()) {
            TopOut::Done { funs, data } => r matches Ok(p) && funs_view(p.0@) == funs && data_view(
                p.1,
            ) == data,
            TopOut::Fail { err } => r matches Err(e) && err_view(e) == err && err_file_ok(
                e,
                old(lexer).file_view(),
            ),
        },
{
    let mut functions = stdlib();
    let mut data = Data::default();
    loop
        invariant
            lexer.wf(),
            lexer.src() == old(lexer).src(),
            lexer.file_view() == old(lexer).file_view(),
            0 <= lexer.pos() <= lexer.src().len(),
            spec_parse_top(old(lexer).src(), old(lexer).pos(), stdlib_model(), empty_data())
                == spec_parse_top(
                old(lexer).src(),
                lexer.pos(),
                funs_view(functions@),
                data_view(data),
            ),
        decreases lexer.src().len() - lexer.pos(),
    {
        proof {
            lemma_next_tok_bounds(lexer.src(), lexer.pos());
        }
        match lexer.next_token() {
            Err(e) => {
                return Err(e);
            },
            Ok(None) => {
                return Ok((functions, data));
            },
            Ok(Some(token)) => match token.kind {
                TokenKind::Kword(Keyword::Fn) => {
                    let ghost p1 = lexer.pos();
                    let ghost d1 = data_view(data);
                    match parse_fn(lexer, &mut data) {
                        Err(e) => {
                            return Err(e);
                        },
                        Ok(f) => {
                            proof {
                                lemma_parse_fn_bounds(lexer.src(), p1, d1);
                                lemma_funs_view_push(functions@, f);
                            }
                            functions.push(f);
                        },
                    }
                },
                TokenKind::Kword(Keyword::Let) => {
                    proof {
                        lemma_next_tok_bounds(lexer.src(), lexer.pos());
                    }
                    match lexer.next_token() {
                        Err(e) => {
                            return Err(e);
                        },
                        Ok(None) => {},
                        Ok(Some(t2)) => match t2.kind {
                            TokenKind::Identifier(var_name) => {
                                proof {
                                    lemma_strs_view_push(data.globals@, var_name);
                                }
                                data.globals.push(var_name);
                            },
                            _ => {},
                        },
                    }
                },
                TokenKind::Semicolon => {},
                _ => {
                    return Err(
                        CompileError::Syntax {
                            file: lexer.file_name(),
                            loc: lexer.loc(),
                            kind: SyntaxErrorKind::OutsideFunction,
                        },
                    );
                },
            },
        }
    }
}

// ---------------------------------------------------------------------------
// Laws of the parsed program
// ---------------------------------------------------------------------------

/// The pool indices of the string literals under an expression, in source
/// order.
pub open spec fn expr_ns(e: ExprModel) -> Seq<int>
    decreases e, 0int,
{
    match e {
        ExprModel::Funcall { args, .. } => exprs_ns(args, 0),
        ExprModel::StrLit { n, .. } => seq![n],
        _ => Seq::empty(),
    }
}

pub open spec fn exprs_ns(es: Seq<ExprModel>, k: int) -> Seq<int>
    decreases es, es.len() - k + 1 when 0 <= k <= es.len()
{
    if k >= es.len() {
        Seq::empty()
    } else {
        expr_ns(es[k]) + exprs_ns(es, k + 1)
    }
}

pub open spec fn fun_ns(f: FunModel) -> Seq<int> {
    exprs_ns(f.exprs, 0)
}

pub open spec fn funs_ns(fs: Seq<FunModel>, k: int) -> Seq<int>
    decreases fs.len() - k when 0 <= k <= fs.len()
{
    if k >= fs.len() {
        Seq::empty()
    } else {
        fun_ns(fs[k]) + funs_ns(fs, k + 1)
    }
}

/// The integers from `a` up to but not including `b`, in order.
pub open spec fn int_range(a: int, b: int) -> Seq<int>
    recommends
        a <= b,
{
    Seq::new(if b >= a {
        (b - a) as nat
    } else {
        0nat
    }, |k: int| a + k)
}

/// Whether every global an expression references is in the list.
pub open spec fn expr_vars_ok(e: ExprModel, globals: Seq<Seq<char>>) -> bool
    decreases e, 0int,
{
    match e {
        ExprModel::Funcall { args, .. } => exprs_vars_ok(args, globals, 0),
        ExprModel::Var(name) => globals.contains(name),
        _ => true,
    }
}

pub open spec fn exprs_vars_ok(es: Seq<ExprModel>, globals: Seq<Seq<char>>, k: int) -> bool
    decreases es, es.len() - k + 1 when 0 <= k <= es.len()
{
    k >= es.len() || (expr_vars_ok(es[k], globals) && exprs_vars_ok(es, globals, k + 1))
}

pub open spec fn fun_vars_ok(f: FunModel, globals: Seq<Seq<char>>) -> bool {
    exprs_vars_ok(f.exprs, globals, 0)
}

pub open spec fn funs_vars_ok(fs: Seq<FunModel>, globals: Seq<Seq<char>>, k: int) -> bool
    decreases fs.len() - k when 0 <= k <= fs.len()
{
    k >= fs.len() || (fun_vars_ok(fs[k], globals) && funs_vars_ok(fs, globals, k + 1))
}

proof fn lemma_exprs_ns_push(es: Seq<ExprModel>, e: ExprModel, k: int)
    requires
        0 <= k <= es.len(),
    ensures
        exprs_ns(es.push(e), k) == exprs_ns(es, k) + expr_ns(e),
    decreases es.len() - k,
{
    if k < es.len() {
        lemma_exprs_ns_push(es, e, k + 1);
        assert(es.push(e)[k] == es[k]);
        assert(expr_ns(es[k]) + (exprs_ns(es, k + 1) + expr_ns(e)) =~= (expr_ns(es[k]) + exprs_ns(
            es,
            k + 1,
        )) + expr_ns(e));
    } else {
        assert(es.push(e)[k] == e);
        assert(expr_ns(e) + exprs_ns(es.push(e), k + 1) =~= expr_ns(e));
        assert(exprs_ns(es, k) + expr_ns(e) =~= expr_ns(e));
    }
}

proof fn lemma_funs_ns_push(fs: Seq<FunModel>, f: FunModel, k: int)
    requires
        0 <= k <= fs.len(),
    ensures
        funs_ns(fs.push(f), k) == funs_ns(fs, k) + fun_ns(f),
    decreases fs.len() - k,
{
    if k < fs.len() {
        lemma_funs_ns_push(fs, f, k + 1);
        assert(fs.push(f)[k] == fs[k]);
        assert(fun_ns(fs[k]) + (funs_ns(fs, k + 1) + fun_ns(f)) =~= (fun_ns(fs[k]) + funs_ns(
            fs,
            k + 1,
        )) + fun_ns(f));
    } else {
        assert(fs.push(f)[k] == f);
        assert(fun_ns(f) + funs_ns(fs.push(f), k + 1) =~= fun_ns(f));
        assert(funs_ns(fs, k) + fun_ns(f) =~= fun_ns(f));
    }
}

proof fn lemma_exprs_vars_push(es: Seq<ExprModel>, e: ExprModel, globals: Seq<Seq<char>>, k: int)
    requires
        0 <= k <= es.len(),
    ensures
        exprs_vars_ok(es.push(e), globals, k) == (exprs_vars_ok(es, globals, k) && expr_vars_ok(
            e,
            globals,
        )),
    decreases es.len() - k,
{
    if k < es.len() {
        lemma_exprs_vars_push(es, e, globals, k + 1);
        assert(es.push(e)[k] == es[k]);
    } else {
        assert(es.push(e)[k] == e);
        assert(exprs_vars_ok(es.push(e), globals, k + 1));
        assert(exprs_vars_ok(es, globals, k));
    }
}

proof fn lemma_funs_vars_push(fs: Seq<FunModel>, f: FunModel, globals: Seq<Seq<char>>, k: int)
    requires
        0 <= k <= fs.len(),
    ensures
        funs_vars_ok(fs.push(f), globals, k) == (funs_vars_ok(fs, globals, k) && fun_vars_ok(
            f,
            globals,
        )),
    decreases fs.len() - k,
{
    if k < fs.len() {
        lemma_funs_vars_push(fs, f, globals, k + 1);
        assert(fs.push(f)[k] == fs[k]);
    } else {
        assert(fs.push(f)[k] == f);
        assert(funs_vars_ok(fs.push(f), globals, k + 1));
        assert(funs_vars_ok(fs, globals, k));
    }
}

proof fn lemma_expr_vars_mono(e: ExprModel, g1: Seq<Seq<char>>, g2: Seq<Seq<char>>)
    requires
        forall|nm: Seq<char>| g1.contains(nm) ==> #[trigger] g2.contains(nm),
        expr_vars_ok(e, g1),
    ensures
        expr_vars_ok(e, g2),
    decreases e, 0int,
{
    match e {
        ExprModel::Funcall { args, .. } => {
            lemma_exprs_vars_mono(args, g1, g2, 0);
        },
        _ => {},
    }
}

proof fn lemma_exprs_vars_mono(es: Seq<ExprModel>, g1: Seq<Seq<char>>, g2: Seq<Seq<char>>, k: int)
    requires
        0 <= k <= es.len(),
        forall|nm: Seq<char>| g1.contains(nm) ==> #[trigger] g2.contains(nm),
        exprs_vars_ok(es, g1, k),
    ensures
        exprs_vars_ok(es, g2, k),
    decreases es, es.len() - k + 1,
{
    if k < es.len() {
        lemma_expr_vars_mono(es[k], g1, g2);
        lemma_exprs_vars_mono(es, g1, g2, k + 1);
    }
}

proof fn lemma_funs_vars_mono(fs: Seq<FunModel>, g1: Seq<Seq<char>>, g2: Seq<Seq<char>>, k: int)
    requires
        0 <= k <= fs.len(),
        forall|nm: Seq<char>| g1.contains(nm) ==> #[trigger] g2.contains(nm),
        funs_vars_ok(fs, g1, k),
    ensures
        funs_vars_ok(fs, g2, k),
    decreases fs.len() - k,
{
    if k < fs.len() {
        lemma_exprs_vars_mono(fs[k].exprs, g1, g2, 0);
        lemma_funs_vars_mono(fs, g1, g2, k + 1);
    }
}

proof fn lemma_args_pool(src: Seq<char>, i: int, args: Seq<ExprModel>, data: DataModel)
    requires
        0 <= i <= src.len(),
    ensures
        spec_parse_args(src, i, args, data) matches ArgsOut::Args { args: args2, data: d2, .. }
            ==> {
            &&& d2.globals == data.globals
            &&& data.strings.len() <= d2.strings.len()
            &&& d2.strings.subrange(0, data.strings.len() as int) == data.strings
            &&& exprs_ns(args2, 0) == exprs_ns(args, 0) + int_range(
                data.strings.len() as int,
                d2.strings.len() as int,
            )
            &&& (exprs_vars_ok(args, data.globals, 0) ==> exprs_vars_ok(args2, d2.globals, 0))
        },
    decreases src.len() - i,
{
    lemma_next_tok_bounds(src, i);
    match next_tok(src, i) {
        Scan::Tok { kind, end } => match kind {
            KindView::Litrl(text) => {
                let a = data.strings.len() as int;
                let arg = ExprModel::StrLit { n: a, len: byte_len(text) };
                let d1 = DataModel { strings: data.strings.push(text), globals: data.globals };
                lemma_args_pool(src, end, args.push(arg), d1);
                lemma_exprs_ns_push(args, arg, 0);
                lemma_exprs_vars_push(args, arg, data.globals, 0);
                match spec_parse_args(src, i, args, data) {
                    ArgsOut::Args { args: args2, data: d2, .. } => {
                        let b = d2.strings.len() as int;
                        assert(d2.strings.subrange(0, data.strings.len() as int)
                            =~= data.strings) by {
                            assert forall|x: int| 0 <= x < data.strings.len() implies d2.strings[x]
                                == data.strings[x] by {
                                assert(d1.strings[x] == data.strings[x]);
                                assert(d2.strings.subrange(0, d1.strings.len() as int)[x]
                                    == d2.strings[x]);
                            }
                        }
                        assert(exprs_ns(args2, 0) =~= exprs_ns(args, 0) + int_range(a, b)) by {
                            assert(exprs_ns(args2, 0) == (exprs_ns(args, 0) + seq![a]) + int_range(
                                a + 1,
                                b,
                            ));
                        }
                    },
                    _ => {},
                }
            },
            KindView::Identifier(name) => {
                if data.globals.contains(name) {
                    let arg = ExprModel::Var(name);
                    lemma_args_pool(src, end, args.push(arg), data);
                    lemma_exprs_ns_push(args, arg, 0);
                    lemma_exprs_vars_push(args, arg, data.globals, 0);
                    match spec_parse_args(src, i, args, data) {
                        ArgsOut::Args { args: args2, data: d2, .. } => {
                            assert(exprs_ns(args.push(arg), 0) =~= exprs_ns(args, 0));
                        },
                        _ => {},
                    }
                }
            },
            KindView::CloseParen => {
                assert(int_range(data.strings.len() as int, data.strings.len() as int)
                    =~= Seq::<int>::empty());
                assert(exprs_ns(args, 0) + Seq::<int>::empty() =~= exprs_ns(args, 0));
                assert(data.strings.subrange(0, data.strings.len() as int) =~= data.strings);
            },
            KindView::Comma => {
                lemma_args_pool(src, end, args, data);
            },
            _ => {},
        },
        _ => {},
    }
}

proof fn lemma_body_pool(src: Seq<char>, i: int, exprs: Seq<ExprModel>, data: DataModel)
    requires
        0 <= i <= src.len(),
    ensures
        spec_parse_body(src, i, exprs, data) matches BodyOut::Body { exprs: es2, data: d2, .. }
            ==> {
            &&& d2.globals == data.globals
            &&& data.strings.len() <= d2.strings.len()
            &&& d2.strings.subrange(0, data.strings.len() as int) == data.strings
            &&& exprs_ns(es2, 0) == exprs_ns(exprs, 0) + int_range(
                data.strings.len() as int,
                d2.strings.len() as int,
            )
            &&& (exprs_vars_ok(exprs, data.globals, 0) ==> exprs_vars_ok(es2, d2.globals, 0))
        },
    decreases src.len() - i,
{
    lemma_next_tok_bounds(src, i);
    match next_tok(src, i) {
        Scan::Tok { kind, end } => match kind {
            KindView::Identifier(fname) => {
                lemma_spec_expect_bounds(src, end, TokenKind::OpenParen);
                match spec_expect(src, end, TokenKind::OpenParen) {
                    ExpectOut::Got { end: e1 } => {
                        lemma_parse_args_bounds(src, e1, Seq::empty(), data);
                        lemma_args_pool(src, e1, Seq::empty(), data);
                        match spec_parse_args(src, e1, Seq::empty(), data) {
                            ArgsOut::Args { args, data: da, end: e2 } => {
                                let a = data.strings.len() as int;
                                let m = da.strings.len() as int;
                                let fc = ExprModel::Funcall { name: fname, args };
                                lemma_body_pool(src, e2, exprs.push(fc), da);
                                lemma_exprs_ns_push(exprs, fc, 0);
                                lemma_exprs_vars_push(exprs, fc, data.globals, 0);
                                assert(exprs_ns(Seq::<ExprModel>::empty(), 0)
                                    =~= Seq::<int>::empty());
                                assert(expr_ns(fc) =~= int_range(a, m));
                                match spec_parse_body(src, i, exprs, data) {
                                    BodyOut::Body { exprs: es2, data: d2, .. } => {
                                        let b = d2.strings.len() as int;
                                        assert(d2.strings.subrange(0, data.strings.len() as int)
                                            =~= data.strings) by {
                                            assert forall|x: int|
                                                0 <= x < data.strings.len() implies d2.strings[x]
                                                == data.strings[x] by {
                                                assert(da.strings[x] == data.strings.subrange(
                                                    0,
                                                    data.strings.len() as int,
                                                )[x]);
                                                assert(d2.strings.subrange(
                                                    0,
                                                    da.strings.len() as int,
                                                )[x] == d2.strings[x]);
                                            }
                                        }
                                        assert(exprs_ns(es2, 0) =~= exprs_ns(exprs, 0) + int_range(
                                            a,
                                            b,
                                        )) by {
                                            assert(exprs_ns(es2, 0) == (exprs_ns(exprs, 0)
                                                + int_range(a, m)) + int_range(m, b));
                                            assert((exprs_ns(exprs, 0) + int_range(a, m))
                                                + int_range(m, b) =~= exprs_ns(exprs, 0) + (
                                            int_range(a, m) + int_range(m, b)));
                                            assert(int_range(a, m) + int_range(m, b) =~= int_range(
                                                a,
                                                b,
                                            ));
                                        }
                                    },
                                    _ => {},
                                }
                            },
                            _ => {},
                        }
                    },
                    _ => {},
                }
            },
            KindView::CloseCurly => {
                assert(int_range(data.strings.len() as int, data.strings.len() as int)
                    =~= Seq::<int>::empty());
                assert(exprs_ns(exprs, 0) + Seq::<int>::empty() =~= exprs_ns(exprs, 0));
                assert(data.strings.subrange(0, data.strings.len() as int) =~= data.strings);
            },
            KindView::Semicolon => {
                lemma_body_pool(src, end, exprs, data);
            },
            _ => {},
        },
        _ => {},
    }
}

proof fn lemma_fn_pool(src: Seq<char>, i: int, data: DataModel)
    requires
        0 <= i <= src.len(),
    ensures
        spec_parse_fn(src, i, data) matches FnOut::Fun { fun, data: d2, .. } ==> {
            &&& d2.globals == data.globals
            &&& data.strings.len() <= d2.strings.len()
            &&& d2.strings.subrange(0, data.strings.len() as int) == data.strings
            &&& fun_ns(fun) == int_range(data.strings.len() as int, d2.strings.len() as int)
            &&& fun_vars_ok(fun, d2.globals)
        },
{
    lemma_next_tok_bounds(src, i);
    match next_tok(src, i) {
        Scan::Tok { kind: KindView::Identifier(name), end } => {
            lemma_spec_expect_bounds(src, end, TokenKind::OpenParen);
            match spec_expect(src, end, TokenKind::OpenParen) {
                ExpectOut::Got { end: e1 } => {
                    lemma_spec_expect_bounds(src, e1, TokenKind::CloseParen);
                    match spec_expect(src, e1, TokenKind::CloseParen) {
                        ExpectOut::Got { end: e2 } => {
                            lemma_spec_expect_bounds(src, e2, TokenKind::OpenCurly);
                            match spec_expect(src, e2, TokenKind::OpenCurly) {
                                ExpectOut::Got { end: e3 } => {
                                    lemma_body_pool(src, e3, Seq::empty(), data);
                                    assert(exprs_ns(Seq::<ExprModel>::empty(), 0)
                                        =~= Seq::<int>::empty());
                                    match spec_parse_body(src, e3, Seq::empty(), data) {
                                        BodyOut::Body { exprs: es2, data: d2, .. } => {
                                            assert(Seq::<int>::empty() + int_range(
                                                data.strings.len() as int,
                                                d2.strings.len() as int,
                                            ) =~= int_range(
                                                data.strings.len() as int,
                                                d2.strings.len() as int,
                                            ));
                                        },
                                        _ => {},
                                    }
                                },
                                _ => {},
                            }
                        },
                        _ => {},
                    }
                },
                _ => {},
            }
        },
        _ => {},
    }
}

/// How one whole parse extends what it started from: the string pool only
/// grows and keeps its earlier entries in place, the function list keeps
/// what it started with as a prefix, every string literal parsed takes
/// the next pool index in source order, and every global reference that
/// survives names a declared global.
pub proof fn lemma_top_pool(src: Seq<char>, i: int, funs: Seq<FunModel>, data: DataModel)
    requires
        0 <= i <= src.len(),
    ensures
        spec_parse_top(src, i, funs, data) matches TopOut::Done { funs: funs2, data: data2 }
            ==> {
            &&& data.strings.len() <= data2.strings.len()
            &&& data2.strings.subrange(0, data.strings.len() as int) == data.strings
            &&& funs.len() <= funs2.len()
            &&& funs2.subrange(0, funs.len() as int) == funs
            &&& funs_ns(funs2, 0) == funs_ns(funs, 0) + int_range(
                data.strings.len() as int,
                data2.strings.len() as int,
            )
            &&& (funs_vars_ok(funs, data.globals, 0) ==> funs_vars_ok(funs2, data2.globals, 0))
        },
    decreases src.len() - i,
{
    lemma_next_tok_bounds(src, i);
    match next_tok(src, i) {
        Scan::End => {
            assert(int_range(data.strings.len() as int, data.strings.len() as int)
                =~= Seq::<int>::empty());
            assert(funs_ns(funs, 0) + Seq::<int>::empty() =~= funs_ns(funs, 0));
            assert(data.strings.subrange(0, data.strings.len() as int) =~= data.strings);
            assert(funs.subrange(0, funs.len() as int) =~= funs);
        },
        Scan::Tok { kind, end } => match kind {
            KindView::Kword(Keyword::Fn) => {
                lemma_parse_fn_bounds(src, end, data);
                lemma_fn_pool(src, end, data);
                match spec_parse_fn(src, end, data) {
                    FnOut::Fun { fun, data: da, end: e2 } => {
                        let a = data.strings.len() as int;
                        let m = da.strings.len() as int;
                        lemma_top_pool(src, e2, funs.push(fun), da);
                        lemma_funs_ns_push(funs, fun, 0);
                        lemma_funs_vars_push(funs, fun, data.globals, 0);
                        match spec_parse_top(src, i, funs, data) {
                            TopOut::Done { funs: funs2, data: data2 } => {
                                let b = data2.strings.len() as int;
                                assert(data2.strings.subrange(0, data.strings.len() as int)
                                    =~= data.strings) by {
                                    assert forall|x: int|
                                        0 <= x < data.strings.len() implies data2.strings[x]
                                        == data.strings[x] by {
                                        assert(da.strings[x] == data.strings.subrange(
                                            0,
                                            data.strings.len() as int,
                                        )[x]);
                                        assert(data2.strings.subrange(0, da.strings.len() as int)[x]
                                            == data2.strings[x]);
                                    }
                                }
                                assert(funs2.subrange(0, funs.len() as int) =~= funs) by {
                                    assert forall|x: int| 0 <= x < funs.len() implies funs2[x]
                                        == funs[x] by {
                                        assert(funs.push(fun)[x] == funs[x]);
                                        assert(funs2.subrange(0, funs.push(fun).len() as int)[x]
                                            == funs2[x]);
                                    }
                                }
                                assert(funs_ns(funs2, 0) =~= funs_ns(funs, 0) + int_range(a, b))
                                    by {
                                    assert(funs_ns(funs2, 0) == (funs_ns(funs, 0) + int_range(a, m))
                                        + int_range(m, b));
                                    assert((funs_ns(funs, 0) + int_range(a, m)) + int_range(m, b)
                                        =~= funs_ns(funs, 0) + (int_range(a, m) + int_range(m, b)));
                                    assert(int_range(a, m) + int_range(m, b) =~= int_range(a, b));
                                }
                            },
                            _ => {},
                        }
                    },
                    _ => {},
                }
            },
            KindView::Kword(Keyword::Let) => {
                lemma_next_tok_bounds(src, end);
                match next_tok(src, end) {
                    Scan::End => {
                        assert(int_range(data.strings.len() as int, data.strings.len() as int)
                            =~= Seq::<int>::empty());
                        assert(funs_ns(funs, 0) + Seq::<int>::empty() =~= funs_ns(funs, 0));
                        assert(data.strings.subrange(0, data.strings.len() as int)
                            =~= data.strings);
                        assert(funs.subrange(0, funs.len() as int) =~= funs);
                    },
                    Scan::Tok { kind: k2, end: e2 } => match k2 {
                        KindView::Identifier(nm) => {
                            let dg = DataModel {
                                strings: data.strings,
                                globals: data.globals.push(nm),
                            };
                            lemma_top_pool(src, e2, funs, dg);
                            if funs_vars_ok(funs, data.globals, 0) {
                                assert forall|w: Seq<char>|
                                    data.globals.contains(w) implies #[trigger] dg.globals.contains(
                                    w,
                                ) by {
                                    let j = choose|j: int|
                                        0 <= j < data.globals.len() && data.globals[j] == w;
                                    assert(dg.globals[j] == w);
                                }
                                lemma_funs_vars_mono(funs, data.globals, dg.globals, 0);
                            }
                        },
                        _ => {
                            lemma_top_pool(src, e2, funs, data);
                        },
                    },
                    _ => {},
                }
            },
            KindView::Semicolon => {
                lemma_top_pool(src, end, funs, data);
            },
            _ => {},
        },
        _ => {},
    }
}

/// Index stability of the string pool: over the whole parsed program the
/// string-literal occurrences carry, in source order, exactly the pool
/// indices 0, 1, 2, ... — one pool entry per occurrence, so textually
/// identical literals get distinct, increasing indices, every stored
/// index is in range, and later insertions never renumber earlier ones.
pub proof fn theorem_pool_indices(src: Seq<char>, funs: Seq<FunModel>, data: DataModel)
    requires
        spec_parse_top(src, 0, stdlib_model(), empty_data()) == (TopOut::Done { funs, data }),
    ensures
        funs_ns(funs, 0) == int_range(0, data.strings.len() as int),
        funs_ns(funs, 0).len() == data.strings.len(),
        forall|p: int| 0 <= p < funs_ns(funs, 0).len() ==> funs_ns(funs, 0)[p] == p,
{
    lemma_top_pool(src, 0, stdlib_model(), empty_data());
    let sm = stdlib_model();
    assert(sm[0].exprs.len() == 1 && sm[1].exprs.len() == 1);
    assert(expr_ns(sm[0].exprs[0]) == Seq::<int>::empty());
    assert(expr_ns(sm[1].exprs[0]) == Seq::<int>::empty());
    assert(exprs_ns(sm[0].exprs, 1) == Seq::<int>::empty());
    assert(exprs_ns(sm[1].exprs, 1) == Seq::<int>::empty());
    assert(fun_ns(sm[0]) =~= Seq::<int>::empty());
    assert(fun_ns(sm[1]) =~= Seq::<int>::empty());
    assert(funs_ns(sm, 2) == Seq::<int>::empty());
    assert(funs_ns(sm, 1) =~= Seq::<int>::empty());
    assert(funs_ns(sm, 0) =~= Seq::<int>::empty());
    assert(Seq::<int>::empty() + int_range(0, data.strings.len() as int) =~= int_range(
        0,
        data.strings.len() as int,
    ));
}

/// Name checking of globals happens at parse time: every global reference
/// that survives a whole parse names a global that stands in the final
/// pool's declaration list.
pub proof fn theorem_vars_declared(src: Seq<char>, funs: Seq<FunModel>, data: DataModel)
    requires
        spec_parse_top(src, 0, stdlib_model(), empty_data()) == (TopOut::Done { funs, data }),
    ensures
        funs_vars_ok(funs, data.globals, 0),
{
    lemma_top_pool(src, 0, stdlib_model(), empty_data());
    let sm = stdlib_model();
    let g = empty_data().globals;
    assert(sm[0].exprs.len() == 1 && sm[1].exprs.len() == 1);
    assert(expr_vars_ok(sm[0].exprs[0], g));
    assert(expr_vars_ok(sm[1].exprs[0], g));
    assert(exprs_vars_ok(sm[0].exprs, g, 1));
    assert(exprs_vars_ok(sm[1].exprs, g, 1));
    assert(fun_vars_ok(sm[0], g));
    assert(fun_vars_ok(sm[1], g));
    assert(funs_vars_ok(sm, g, 2));
    assert(funs_vars_ok(sm, g, 1));
    assert(funs_vars_ok(sm, g, 0));
}

} // verus!
