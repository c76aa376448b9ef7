//! Lexical analysis: located tokens from raw source characters, with the
//! token grammar written once as specification functions over the
//! character sequence and the scanner proved against it.

use vstd::prelude::*;
use vstd::string::StrSliceExecFns;
use vstd::string::StringExecFns;
use crate::error::{CompileError, SyntaxErrorKind};

verus! {

// ---------------------------------------------------------------------------
// Tokens
// ---------------------------------------------------------------------------

/// The reserved words of the language.
#[derive(Debug, Clone, Copy, PartialEq, Eq, Structural)]
pub enum Keyword {
    Fn,
    Let,
}

/// A literal token's decoded payload.
#[derive(Debug, Clone, PartialEq)]
pub enum Literal {
    Str(String),
}

/// The category of a token, together with its payload where one exists.
#[derive(Debug, Clone, PartialEq)]
pub enum TokenKind {
    OpenParen,
    CloseParen,
    OpenCurly,
    CloseCurly,
    Kword(Keyword),
    Identifier(String),
    Litrl(Literal),
    Semicolon,
    Comma,
    Invalid,
}

/// A position in the source text; both coordinates are 1-based and the
/// column is measured from the start of the current line.
#[derive(Debug, Clone, Copy, PartialEq, Eq, Structural)]
pub struct Loc {
    pub line: usize,
    pub col: usize,
}

/// A classified, located lexical unit.
#[derive(Debug, Clone)]
pub struct Token {
    pub kind: TokenKind,
    pub loc: Loc,
}

// ---------------------------------------------------------------------------
// Character classes
// ---------------------------------------------------------------------------

/// Whether a character counts as Unicode whitespace; the scanner's word
/// boundaries are drawn by this class.
pub uninterp spec fn whitespace(c: char) -> bool;

/// Whether a character counts as Unicode alphanumeric; identifiers are
/// drawn from this class plus the underscore.
pub uninterp spec fn alphanumeric(c: char) -> bool;

/// Relies on char::is_whitespace: true exactly for the characters with the
/// Unicode White_Space property, a fixed property of the character value;
/// the newline is among them.
#[verifier::external_body]
fn char_is_whitespace(c: char) -> (r: bool)
    ensures
        r == whitespace(c),
        c == '\n' ==> r,
{
    c.is_whitespace()
}

/// Relies on char::is_alphanumeric: true exactly for the characters in the
/// Unicode Alphabetic class or one of the Nd, Nl, No number classes, a fixed
/// property of the character value.
#[verifier::external_body]
fn char_is_alphanumeric(c: char) -> (r: bool)
    ensures
        r == alphanumeric(c),
{
    c.is_alphanumeric()
}

/// Relies on String::push: appends the given character to the end of the
/// string.
#[verifier::external_body]
pub(crate) fn push_char(s: &mut String, c: char)
    ensures
        final(s)@ == old(s)@.push(c),
{
    s.push(c)
}

/// An ASCII decimal digit; such a character may not begin a token.
pub open spec fn digit(c: char) -> bool {
    ('0' as u32) <= (c as u32) && (c as u32) <= ('9' as u32)
}

/// A character that may continue an identifier.
pub open spec fn ident_char(c: char) -> bool {
    alphanumeric(c) || c == '_'
}

fn is_ident_char(c: char) -> (r: bool)
    ensures
        r == ident_char(c),
{
    char_is_alphanumeric(c) || c == '_'
}

// ---------------------------------------------------------------------------
// The scanner's specification
// ---------------------------------------------------------------------------

/// The position of the first non-whitespace character at or after `i`,
/// or the end of the input if only whitespace remains.
pub open spec fn skip_ws(src: Seq<char>, i: int) -> int
    decreases src.len() - i when 0 <= i <= src.len()
{
    if i < src.len() && whitespace(src[i]) {
        skip_ws(src, i + 1)
    } else {
        i
    }
}

/// The position just past the identifier run that starts at `i`.
pub open spec fn skip_ident(src: Seq<char>, i: int) -> int
    decreases src.len() - i when 0 <= i <= src.len()
{
    if i < src.len() && ident_char(src[i]) {
        skip_ident(src, i + 1)
    } else {
        i
    }
}

/// The outcome of scanning a string literal body.
pub enum StrScan {
    /// The decoded text and the position just past the closing quote.
    Done { text: Seq<char>, end: int },
    /// The input ended before the closing quote.
    Unterminated,
    /// A backslash stood at the very end of the input.
    UnterminatedEscape,
    /// A backslash introduced anything other than `n`.
    BadEscape { c: char },
}

/// Scans a string literal body from `i` (just past the opening quote),
/// having decoded `acc` so far. The only escape is `\n`; every other
/// character stands for itself until the closing quote.
pub open spec fn scan_str(src: Seq<char>, i: int, acc: Seq<char>) -> StrScan
    decreases src.len() - i when 0 <= i <= src.len()
{
    if i >= src.len() {
        StrScan::Unterminated
    } else if src[i] == '"' {
        StrScan::Done { text: acc, end: i + 1 }
    } else if src[i] == '\\' {
        if i + 1 >= src.len() {
            StrScan::UnterminatedEscape
        } else if src[i + 1] == 'n' {
            scan_str(src, i + 2, acc.push('\n'))
        } else {
            StrScan::BadEscape { c: src[i + 1] }
        }
    } else {
        scan_str(src, i + 1, acc.push(src[i]))
    }
}

/// A token category at the specification level, with payloads as plain
/// character sequences.
pub enum KindView {
    OpenParen,
    CloseParen,
    OpenCurly,
    CloseCurly,
    Kword(Keyword),
    Identifier(Seq<char>),
    Litrl(Seq<char>),
    Semicolon,
    Comma,
    Invalid,
}

/// The specification-level category of a produced token kind.
pub open spec fn kind_view(k: TokenKind) -> KindView {
    match k {
        TokenKind::OpenParen => KindView::OpenParen,
        TokenKind::CloseParen => KindView::CloseParen,
        TokenKind::OpenCurly => KindView::OpenCurly,
        TokenKind::CloseCurly => KindView::CloseCurly,
        TokenKind::Kword(kw) => KindView::Kword(kw),
        TokenKind::Identifier(s) => KindView::Identifier(s@),
        TokenKind::Litrl(Literal::Str(s)) => KindView::Litrl(s@),
        TokenKind::Semicolon => KindView::Semicolon,
        TokenKind::Comma => KindView::Comma,
        TokenKind::Invalid => KindView::Invalid,
    }
}

/// The outcome of one scan step.
pub enum Scan {
    /// Only whitespace remained.
    End,
    /// A token of category `kind` whose source span ends at `end`.
    Tok { kind: KindView, end: int },
    /// The text at this position begins no token.
    Fail { err: SyntaxErrorKind },
}

/// Scans one token at position `i`, which must not point at whitespace.
/// A leading ASCII digit is rejected before the identifier rule applies,
/// so no token begins with one.
pub open spec fn scan_token(src: Seq<char>, i: int) -> Scan
    recommends
        0 <= i <= src.len(),
{
    if i >= src.len() {
        Scan::End
    } else {
        let c = src[i];
        if digit(c) {
            Scan::Fail { err: SyntaxErrorKind::InvalidTokenStart(c) }
        } else if c == '(' {
            Scan::Tok { kind: KindView::OpenParen, end: i + 1 }
        } else if c == ')' {
            Scan::Tok { kind: KindView::CloseParen, end: i + 1 }
        } else if c == '{' {
            Scan::Tok { kind: KindView::OpenCurly, end: i + 1 }
        } else if c == '}' {
            Scan::Tok { kind: KindView::CloseCurly, end: i + 1 }
        } else if c == ';' {
            Scan::Tok { kind: KindView::Semicolon, end: i + 1 }
        } else if c == ',' {
            Scan::Tok { kind: KindView::Comma, end: i + 1 }
        } else if c == '"' {
            match scan_str(src, i + 1, Seq::empty()) {
                StrScan::Done { text, end } => Scan::Tok { kind: KindView::Litrl(text), end },
                StrScan::Unterminated => Scan::Fail { err: SyntaxErrorKind::UnterminatedString },
                StrScan::UnterminatedEscape => Scan::Fail {
                    err: SyntaxErrorKind::UnterminatedEscape,
                },
                StrScan::BadEscape { c: e } => Scan::Fail { err: SyntaxErrorKind::InvalidEscape(e) },
            }
        } else if ident_char(c) {
            let end = skip_ident(src, i);
            let text = src.subrange(i, end);
            let kind = if text == "fn"@ {
                KindView::Kword(Keyword::Fn)
            } else if text == "let"@ {
                KindView::Kword(Keyword::Let)
            } else {
                KindView::Identifier(text)
            };
            Scan::Tok { kind, end }
        } else {
            Scan::Fail { err: SyntaxErrorKind::InvalidTokenStart(c) }
        }
    }
}

/// Scans one token after first skipping whitespace from `i`.
pub open spec fn next_tok(src: Seq<char>, i: int) -> Scan {
    scan_token(src, skip_ws(src, i))
}

/// Whether a scanned token has the category that was asked for: literal and
/// identifier payloads are not compared, only the token's category.
pub open spec fn category_match(k: KindView, what: TokenKind) -> bool {
    match (k, kind_view(what)) {
        (KindView::OpenParen, KindView::OpenParen) => true,
        (KindView::CloseParen, KindView::CloseParen) => true,
        (KindView::OpenCurly, KindView::OpenCurly) => true,
        (KindView::CloseCurly, KindView::CloseCurly) => true,
        (KindView::Kword(a), KindView::Kword(b)) => a == b,
        (KindView::Identifier(_), KindView::Identifier(_)) => true,
        (KindView::Litrl(_), KindView::Litrl(_)) => true,
        (KindView::Semicolon, KindView::Semicolon) => true,
        (KindView::Comma, KindView::Comma) => true,
        (KindView::Invalid, KindView::Invalid) => true,
        _ => false,
    }
}

/// The outcome of demanding one token of a fixed category.
pub enum ExpectOut {
    /// The token was there; its span ends at `end`.
    Got { end: int },
    /// It was not; why.
    Failed { err: crate::error::ErrView },
}

/// What `expect` finds at position `i` when asked for a token of the
/// category of `what`.
pub open spec fn spec_expect(src: Seq<char>, i: int, what: TokenKind) -> ExpectOut {
    match next_tok(src, i) {
        Scan::End => ExpectOut::Failed {
            err: crate::error::ErrView::UnexpectedEof { expected: kind_view(what) },
        },
        Scan::Fail { err } => ExpectOut::Failed { err: crate::error::ErrView::Syntax(err) },
        Scan::Tok { kind, end } => if category_match(kind, what) {
            ExpectOut::Got { end }
        } else {
            ExpectOut::Failed {
                err: crate::error::ErrView::UnexpectedToken {
                    expected: kind_view(what),
                    found: kind,
                },
            }
        },
    }
}

pub proof fn lemma_spec_expect_bounds(src: Seq<char>, i: int, what: TokenKind)
    requires
        0 <= i <= src.len(),
    ensures
        spec_expect(src, i, what) matches ExpectOut::Got { end } ==> i < end <= src.len(),
{
    lemma_next_tok_bounds(src, i);
}

fn kind_category_eq(a: &TokenKind, b: &TokenKind) -> (r: bool)
    ensures
        r == category_match(kind_view(*a), *b),
{
    match (a, b) {
        (TokenKind::OpenParen, TokenKind::OpenParen) => true,
        (TokenKind::CloseParen, TokenKind::CloseParen) => true,
        (TokenKind::OpenCurly, TokenKind::OpenCurly) => true,
        (TokenKind::CloseCurly, TokenKind::CloseCurly) => true,
        (TokenKind::Kword(Keyword::Fn), TokenKind::Kword(Keyword::Fn)) => true,
        (TokenKind::Kword(Keyword::Let), TokenKind::Kword(Keyword::Let)) => true,
        (TokenKind::Identifier(_), TokenKind::Identifier(_)) => true,
        (TokenKind::Litrl(_), TokenKind::Litrl(_)) => true,
        (TokenKind::Semicolon, TokenKind::Semicolon) => true,
        (TokenKind::Comma, TokenKind::Comma) => true,
        (TokenKind::Invalid, TokenKind::Invalid) => true,
        _ => false,
    }
}

pub proof fn lemma_skip_ws_bounds(src: Seq<char>, i: int)
    requires
        0 <= i <= src.len(),
    ensures
        i <= skip_ws(src, i) <= src.len(),
    decreases src.len() - i,
{
    if i < src.len() && whitespace(src[i]) {
        lemma_skip_ws_bounds(src, i + 1);
    }
}

pub proof fn lemma_skip_ident_bounds(src: Seq<char>, i: int)
    requires
        0 <= i <= src.len(),
    ensures
        i <= skip_ident(src, i) <= src.len(),
    decreases src.len() - i,
{
    if i < src.len() && ident_char(src[i]) {
        lemma_skip_ident_bounds(src, i + 1);
    }
}

pub proof fn lemma_scan_str_bounds(src: Seq<char>, i: int, acc: Seq<char>)
    requires
        0 <= i <= src.len(),
    ensures
        scan_str(src, i, acc) matches StrScan::Done { text, end } ==> i < end <= src.len(),
    decreases src.len() - i,
{
    if i < src.len() && src[i] != '"' {
        if src[i] == '\\' {
            if i + 1 < src.len() && src[i + 1] == 'n' {
                lemma_scan_str_bounds(src, i + 2, acc.push('\n'));
            }
        } else {
            lemma_scan_str_bounds(src, i + 1, acc.push(src[i]));
        }
    }
}

pub proof fn lemma_scan_token_bounds(src: Seq<char>, i: int)
    requires
        0 <= i <= src.len(),
    ensures
        scan_token(src, i) matches Scan::Tok { end, .. } ==> i < end <= src.len(),
{
    if i < src.len() {
        let c = src[i];
        if c == '"' {
            lemma_scan_str_bounds(src, i + 1, Seq::empty());
        } else if !digit(c) && ident_char(c) {
            lemma_skip_ident_bounds(src, i + 1);
            assert(skip_ident(src, i) == skip_ident(src, i + 1));
        }
    }
}

pub proof fn lemma_next_tok_bounds(src: Seq<char>, i: int)
    requires
        0 <= i <= src.len(),
    ensures
        next_tok(src, i) matches Scan::Tok { end, .. } ==> i < end <= src.len(),
{
    lemma_skip_ws_bounds(src, i);
    lemma_scan_token_bounds(src, skip_ws(src, i));
}

/// Every character the scanner skips between tokens is whitespace.
pub proof fn lemma_skip_ws_whitespace(src: Seq<char>, i: int)
    requires
        0 <= i <= src.len(),
    ensures
        forall|j: int| i <= j < skip_ws(src, i) ==> whitespace(src[j]),
    decreases src.len() - i,
{
    if i < src.len() && whitespace(src[i]) {
        lemma_skip_ws_whitespace(src, i + 1);
        lemma_skip_ws_bounds(src, i + 1);
    }
}

/// Whether scanning from `i` reaches the end of the input with no failure.
pub open spec fn scans_to_end(src: Seq<char>, i: int) -> bool
    decreases src.len() - i when 0 <= i <= src.len() via scans_to_end_dec
{
    match next_tok(src, i) {
        Scan::End => true,
        Scan::Tok { end, .. } => scans_to_end(src, end),
        Scan::Fail { .. } => false,
    }
}

#[via_fn]
proof fn scans_to_end_dec(src: Seq<char>, i: int) {
    lemma_next_tok_bounds(src, i);
}

/// The input from `i` on, rebuilt as the scanner divides it: a whitespace
/// run, then one token's source span, then the rest; at the end of the
/// scan, whatever remains (only whitespace, when the scan succeeds).
pub open spec fn scan_cover(src: Seq<char>, i: int) -> Seq<char>
    decreases src.len() - i when 0 <= i <= src.len() via scan_cover_dec
{
    let j = skip_ws(src, i);
    match scan_token(src, j) {
        Scan::Tok { end, .. } => src.subrange(i, j) + src.subrange(j, end) + scan_cover(src, end),
        _ => src.subrange(i, src.len() as int),
    }
}

#[via_fn]
proof fn scan_cover_dec(src: Seq<char>, i: int) {
    lemma_next_tok_bounds(src, i);
}

/// Scanner completeness: on input the scanner accepts, the token source
/// spans are contiguous pieces of the input, and re-concatenating them
/// with the skipped runs reproduces the input exactly. Since every
/// skipped character is whitespace (`lemma_skip_ws_whitespace`), the
/// spans alone reproduce the input with only inter-token whitespace
/// removed.
pub proof fn theorem_scanner_complete(src: Seq<char>, i: int)
    requires
        0 <= i <= src.len(),
        scans_to_end(src, i),
    ensures
        scan_cover(src, i) == src.subrange(i, src.len() as int),
    decreases src.len() - i,
{
    let j = skip_ws(src, i);
    lemma_skip_ws_bounds(src, i);
    lemma_scan_token_bounds(src, j);
    match scan_token(src, j) {
        Scan::Tok { end, .. } => {
            theorem_scanner_complete(src, end);
            assert(src.subrange(i, j) + src.subrange(j, end) + src.subrange(
                end,
                src.len() as int,
            ) =~= src.subrange(i, src.len() as int));
        },
        _ => {},
    }
}

// ---------------------------------------------------------------------------
// Location tracking
// ---------------------------------------------------------------------------

/// The line counter after sweeping positions `a` to `b`: each newline seen
/// increments it.
pub open spec fn line_after(src: Seq<char>, a: int, b: int, line: int) -> int
    decreases b - a when 0 <= a <= b <= src.len()
{
    if a >= b {
        line
    } else {
        line_after(src, a + 1, b, if src[a] == '\n' { line + 1 } else { line })
    }
}

/// The beginning-of-line marker after sweeping positions `a` to `b`: each
/// newline seen resets it to the position just past itself.
pub open spec fn bol_after(src: Seq<char>, a: int, b: int, bol: int) -> int
    decreases b - a when 0 <= a <= b <= src.len()
{
    if a >= b {
        bol
    } else {
        bol_after(src, a + 1, b, if src[a] == '\n' { a + 1 } else { bol })
    }
}

// ---------------------------------------------------------------------------
// The scanner
// ---------------------------------------------------------------------------

/// A forward-only cursor over the source text that produces located tokens.
pub struct Lexer {
    cursor: usize,
    line_n: usize,
    bol: usize,
    pub file: String,
    chars: Vec<char>,
    is_exhausted: bool,
}

impl Lexer {
    /// The source text being scanned.
    pub closed spec fn src(&self) -> Seq<char> {
        self.chars@
    }

    /// The file name carried for diagnostics.
    pub closed spec fn file_view(&self) -> Seq<char> {
        self.file@
    }

    /// A copy of the file name, for building diagnostics.
    pub fn file_name(&self) -> (r: String)
        ensures
            r@ == self.file_view(),
    {
        self.file.clone()
    }

    /// The scanning position: everything before it has been consumed.
    pub closed spec fn pos(&self) -> int {
        self.cursor as int
    }

    /// The current 1-based line number.
    pub closed spec fn line(&self) -> int {
        self.line_n as int
    }

    /// The position where the current line begins.
    pub closed spec fn bol_pos(&self) -> int {
        self.bol as int
    }

    /// Whether a read past the end of the input has happened.
    pub closed spec fn exhausted(&self) -> bool {
        self.is_exhausted
    }

    /// The location the scanner would report right now.
    pub open spec fn loc_view(&self) -> Loc {
        Loc { line: self.line() as usize, col: (self.pos() - self.bol_pos()) as usize }
    }

    /// The scanner's structural invariant: the cursor lies in the text, the
    /// line origin never passes the cursor, and the 1-based line counter
    /// stays within the swept prefix.
    pub open spec fn wf(&self) -> bool {
        &&& 0 <= self.bol_pos() <= self.pos() <= self.src().len()
        &&& 1 <= self.line() <= self.bol_pos() + 1
        &&& self.src().len() < usize::MAX
        &&& (self.exhausted() ==> self.pos() == self.src().len())
    }

    /// Builds a scanner over the given source text, remembering the file
    /// name for diagnostics. The length bound leaves room for the line
    /// counter, which may reach one past the number of characters.
    pub fn new(filepath: &str, source: &str) -> (r: Lexer)
        requires
            source@.len() < usize::MAX,
        ensures
            r.wf(),
            r.src() == source@,
            r.file_view() == filepath@,
            r.pos() == 0,
            r.line() == 1,
            r.bol_pos() == 0,
    {
        Lexer {
            chars: str_to_chars(source),
            file: filepath.to_owned(),
            cursor: 0,
            line_n: 1,
            bol: 0,
            is_exhausted: false,
        }
    }

    fn chop_char(&mut self) -> (r: Option<char>)
        requires
            old(self).wf(),
        ensures
            final(self).wf(),
            final(self).src() == old(self).src(),
            final(self).file_view() == old(self).file_view(),
            final(self).line() == old(self).line(),
            final(self).bol_pos() == old(self).bol_pos(),
            old(self).pos() < old(self).src().len() ==> {
                &&& r == Some(old(self).src()[old(self).pos()])
                &&& final(self).pos() == old(self).pos() + 1
                &&& final(self).exhausted() == old(self).exhausted()
            },
            old(self).pos() == old(self).src().len() ==> {
                &&& r is None
                &&& final(self).pos() == old(self).pos()
                &&& final(self).exhausted()
            },
    {
        if self.cursor < self.chars.len() {
            let c = self.chars[self.cursor];
            self.cursor += 1;
            Some(c)
        } else {
            self.is_exhausted = true;
            None
        }
    }

    fn chop_char_if<F: Fn(char) -> bool>(&mut self, condition: F) -> (r: Option<char>)
        requires
            old(self).wf(),
            forall|c: char| call_requires(condition, (c,)),
        ensures
            final(self).wf(),
            final(self).src() == old(self).src(),
            final(self).file_view() == old(self).file_view(),
            final(self).line() == old(self).line(),
            final(self).bol_pos() == old(self).bol_pos(),
            old(self).pos() < old(self).src().len() ==> {
                let c = old(self).src()[old(self).pos()];
                ||| (r == Some(c) && final(self).pos() == old(self).pos() + 1 && call_ensures(
                    condition,
                    (c,),
                    true,
                ) && final(self).exhausted() == old(self).exhausted())
                ||| (r is None && final(self).pos() == old(self).pos() && call_ensures(
                    condition,
                    (c,),
                    false,
                ) && final(self).exhausted() == old(self).exhausted())
            },
            old(self).pos() == old(self).src().len() ==> {
                &&& r is None
                &&& final(self).pos() == old(self).pos()
                &&& final(self).exhausted()
            },
    {
        if self.cursor < self.chars.len() {
            let c = self.chars[self.cursor];
            if condition(c) {
                self.cursor += 1;
                Some(c)
            } else {
                None
            }
        } else {
            self.is_exhausted = true;
            None
        }
    }

    fn trim_whitespace(&mut self)
        requires
            old(self).wf(),
        ensures
            final(self).wf(),
            final(self).src() == old(self).src(),
            final(self).file_view() == old(self).file_view(),
            final(self).pos() == skip_ws(old(self).src(), old(self).pos()),
            final(self).line() == line_after(
                old(self).src(),
                old(self).pos(),
                final(self).pos(),
                old(self).line(),
            ),
            final(self).bol_pos() == bol_after(
                old(self).src(),
                old(self).pos(),
                final(self).pos(),
                old(self).bol_pos(),
            ),
    {
        let ghost src = old(self).src();
        let ghost p0 = old(self).pos();
        let ghost l0 = old(self).line();
        let ghost b0 = old(self).bol_pos();
        let ghost fin = skip_ws(src, p0);
        proof {
            lemma_skip_ws_bounds(src, p0);
        }
        while !self.is_exhausted
            invariant
                self.wf(),
                self.src() == src,
                self.file_view() == old(self).file_view(),
                p0 <= self.pos() <= fin <= src.len(),
                fin == skip_ws(src, self.pos()),
                fin == skip_ws(src, p0),
                line_after(src, self.pos(), fin, self.line()) == line_after(src, p0, fin, l0),
                bol_after(src, self.pos(), fin, self.bol_pos()) == bol_after(src, p0, fin, b0),
            ensures
                self.pos() == fin,
                line_after(src, self.pos(), fin, self.line()) == line_after(src, p0, fin, l0),
                bol_after(src, self.pos(), fin, self.bol_pos()) == bol_after(src, p0, fin, b0),
            decreases src.len() - self.pos() + (if self.exhausted() {
                0int
            } else {
                1int
            }),
        {
            let ghost pre = self.pos();
            if let Some(c) = self.chop_char() {
                if c == '\n' {
                    self.bol = self.cursor;
                    self.line_n += 1;
                }
                if !char_is_whitespace(c) {
                    self.cursor -= 1;
                    proof {
                        assert(!whitespace(src[pre]));
                        assert(skip_ws(src, pre) == pre);
                    }
                    break ;
                }
                proof {
                    assert(whitespace(src[pre]));
                    assert(skip_ws(src, pre) == skip_ws(src, pre + 1));
                    lemma_skip_ws_bounds(src, pre + 1);
                    assert(pre < fin);
                }
            }
        }
        proof {
            assert(line_after(src, fin, fin, self.line()) == self.line());
            assert(bol_after(src, fin, fin, self.bol_pos()) == self.bol_pos());
        }
    }

    fn lex_str_body(&mut self) -> (r: Result<String, CompileError>)
        requires
            old(self).wf(),
        ensures
            final(self).wf(),
            final(self).src() == old(self).src(),
            final(self).file_view() == old(self).file_view(),
            final(self).line() == old(self).line(),
            final(self).bol_pos() == old(self).bol_pos(),
            match scan_str(old(self).src(), old(self).pos(), Seq::empty()) {
                StrScan::Done { text, end } => r matches Ok(s) && s@ == text && final(self).pos()
                    == end,
                StrScan::Unterminated => r matches Err(e) && e matches CompileError::Syntax {
                    file,
                    kind,
                    ..
                } && file@ == old(self).file_view() && kind == SyntaxErrorKind::UnterminatedString,
                StrScan::UnterminatedEscape => r matches Err(e) && e matches CompileError::Syntax {
                    file,
                    kind,
                    ..
                } && file@ == old(self).file_view() && kind == SyntaxErrorKind::UnterminatedEscape,
                StrScan::BadEscape { c } => r matches Err(e) && e matches CompileError::Syntax {
                    file,
                    kind,
                    ..
                } && file@ == old(self).file_view() && kind == SyntaxErrorKind::InvalidEscape(c),
            },
    {
        let mut text = String::new();
        loop
            invariant
                self.wf(),
                self.src() == old(self).src(),
                self.file_view() == old(self).file_view(),
                self.line() == old(self).line(),
                self.bol_pos() == old(self).bol_pos(),
                0 <= old(self).pos() <= self.pos() <= self.src().len(),
                scan_str(old(self).src(), old(self).pos(), Seq::empty()) == scan_str(
                    old(self).src(),
                    self.pos(),
                    text@,
                ),
            decreases self.src().len() - self.pos(),
        {
            let ghost src = old(self).src();
            let ghost pre = self.pos();
            match self.chop_char() {
                None => {
                    return Err(CompileError::Syntax {
                        file: self.file_name(),
                        loc: self.loc(),
                        kind: SyntaxErrorKind::UnterminatedString,
                    });
                },
                Some(x) => {
                    if x == '"' {
                        return Ok(text);
                    }
                    if x == '\\' {
                        match self.chop_char() {
                            None => {
                                return Err(CompileError::Syntax {
                                    file: self.file_name(),
                                    loc: self.loc(),
                                    kind: SyntaxErrorKind::UnterminatedEscape,
                                });
                            },
                            Some(e) => {
                                if e == 'n' {
                                    push_char(&mut text, '\n');
                                } else {
                                    return Err(CompileError::Syntax {
                                        file: self.file_name(),
                                        loc: self.loc(),
                                        kind: SyntaxErrorKind::InvalidEscape(e),
                                    });
                                }
                            },
                        }
                    } else {
                        push_char(&mut text, x);
                    }
                },
            }
        }
    }

    /// Scans the next token, or reports that only whitespace remained, or
    /// why the text at the scanning position forms no token.
    pub fn next_token(&mut self) -> (r: Result<Option<Token>, CompileError>)
        requires
            old(self).wf(),
        ensures
            final(self).wf(),
            final(self).src() == old(self).src(),
            final(self).file_view() == old(self).file_view(),
            ({
                let src = old(self).src();
                let i = skip_ws(src, old(self).pos());
                &&& final(self).line() == line_after(src, old(self).pos(), i, old(self).line())
                &&& final(self).bol_pos() == bol_after(
                    src,
                    old(self).pos(),
                    i,
                    old(self).bol_pos(),
                )
                &&& match scan_token(src, i) {
                    Scan::End => r == Ok::<Option<Token>, CompileError>(None) && final(self).pos()
                        == src.len(),
                    Scan::Tok { kind, end } => {
                        &&& final(self).pos() == end
                        &&& r matches Ok(ot) && ot matches Some(t) && kind_view(t.kind) == kind
                            && t.loc == final(self).loc_view()
                    },
                    Scan::Fail { err } => r matches Err(e) && e matches CompileError::Syntax {
                        file,
                        kind,
                        ..
                    } && file@ == old(self).file_view() && kind == err,
                }
            }),
    {
        self.trim_whitespace();
        let ghost src = self.src();
        let ghost i = self.pos();
        let c = match self.chop_char() {
            None => {
                return Ok(None);
            },
            Some(c) => c,
        };
        let kind: TokenKind;
        if ('0' as u32) <= (c as u32) && (c as u32) <= ('9' as u32) {
            return Err(CompileError::Syntax {
                file: self.file_name(),
                loc: self.loc(),
                kind: SyntaxErrorKind::InvalidTokenStart(c),
            });
        } else if c == '(' {
            kind = TokenKind::OpenParen;
        } else if c == ')' {
            kind = TokenKind::CloseParen;
        } else if c == '{' {
            kind = TokenKind::OpenCurly;
        } else if c == '}' {
            kind = TokenKind::CloseCurly;
        } else if c == ';' {
            kind = TokenKind::Semicolon;
        } else if c == ',' {
            kind = TokenKind::Comma;
        } else if c == '"' {
            let text = match self.lex_str_body() {
                Ok(text) => text,
                Err(e) => {
                    return Err(e);
                },
            };
            kind = TokenKind::Litrl(Literal::Str(text));
        } else if is_ident_char(c) {
            let mut text = String::new();
            push_char(&mut text, c);
            proof {
                assert(text@ =~= src.subrange(i, i + 1));
                assert(skip_ident(src, i) == skip_ident(src, i + 1));
            }
            loop
                invariant
                    self.wf(),
                    self.src() == src,
                    self.file_view() == old(self).file_view(),
                    self.line() == line_after(src, old(self).pos(), i, old(self).line()),
                    self.bol_pos() == bol_after(src, old(self).pos(), i, old(self).bol_pos()),
                    0 <= i < self.pos() <= src.len(),
                    text@ == src.subrange(i, self.pos()),
                    skip_ident(src, self.pos()) == skip_ident(src, i),
                ensures
                    self.pos() == skip_ident(src, i),
                decreases src.len() - self.pos(),
            {
                let ghost pre = self.pos();
                let cond = |x: char| -> (b: bool)
                    ensures
                        b == ident_char(x),
                    {
                        is_ident_char(x)
                    };
                match self.chop_char_if(cond) {
                    Some(x) => {
                        push_char(&mut text, x);
                        proof {
                            assert(ident_char(src[pre]));
                            assert(text@ =~= src.subrange(i, pre + 1));
                        }
                    },
                    None => {
                        proof {
                            assert(skip_ident(src, pre) == pre);
                        }
                        break ;
                    },
                }
            }
            let kw_fn = String::from_str("fn");
            let kw_let = String::from_str("let");
            if text == kw_fn {
                kind = TokenKind::Kword(Keyword::Fn);
            } else if text == kw_let {
                kind = TokenKind::Kword(Keyword::Let);
            } else {
                kind = TokenKind::Identifier(text);
            }
        } else {
            return Err(CompileError::Syntax {
                file: self.file_name(),
                loc: self.loc(),
                kind: SyntaxErrorKind::InvalidTokenStart(c),
            });
        }
        Ok(Some(Token { kind, loc: self.loc() }))
    }

    /// Pulls the next token and hands it back only when its category is the
    /// requested one; literal and identifier payloads are not compared.
    pub fn expect(&mut self, what: TokenKind) -> (r: Result<Token, CompileError>)
        requires
            old(self).wf(),
        ensures
            final(self).wf(),
            final(self).src() == old(self).src(),
            final(self).file_view() == old(self).file_view(),
            match spec_expect(old(self).src(), old(self).pos(), what) {
                ExpectOut::Got { end } => {
                    &&& final(self).pos() == end
                    &&& r matches Ok(t) && next_tok(old(self).src(), old(self).pos())
                        matches Scan::Tok { kind, .. } && kind_view(t.kind) == kind
                },
                ExpectOut::Failed { err } => r matches Err(e) && crate::error::err_view(e) == err
                    && crate::error::err_file_ok(e, old(self).file_view()),
            },
    {
        let tok_opt = match self.next_token() {
            Ok(t) => t,
            Err(e) => {
                return Err(e);
            },
        };
        match tok_opt {
            None => Err(
                CompileError::UnexpectedEof { file: self.file_name(), expected: what },
            ),
            Some(tok) => {
                if kind_category_eq(&tok.kind, &what) {
                    Ok(tok)
                } else {
                    Err(
                        CompileError::UnexpectedToken {
                            file: self.file_name(),
                            expected: what,
                            found: tok,
                        },
                    )
                }
            },
        }
    }

    /// The location of the character about to be scanned, 1-based.
    pub fn loc(&self) -> (l: Loc)
        requires
            self.wf(),
        ensures
            l == self.loc_view(),
    {
        Loc { line: self.line_n, col: self.cursor - self.bol }
    }
}

fn str_to_chars(s: &str) -> (v: Vec<char>)
    ensures
        v@ == s@,
{
    let n = s.unicode_len();
    let mut v: Vec<char> = Vec::new();
    let mut i: usize = 0;
    while i < n
        invariant
            i <= n,
            n == s@.len(),
            v@ == s@.take(i as int),
        decreases n - i,
    {
        v.push(s.get_char(i));
        proof {
            assert(v@ =~= s@.take(i + 1));
        }
        i += 1;
    }
    proof {
        assert(v@ =~= s@);
    }
    v
}

} // verus!
