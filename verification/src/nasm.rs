//! Code generation: the parsed program rendered as one x86-64 assembly
//! unit in nasm syntax, specified as a function from the program's model
//! to the exact text; callee names are resolved here, against the full
//! function list, and the first unresolved one aborts the unit.

use vstd::prelude::*;
use vstd::string::{StrSliceExecFns, StringExecFns};
use vstd::utf8::encode_utf8;
use crate::error::{err_view, CompileError, ErrView};
use crate::parser::{
    data_view, expr_view, exprs_view, fun_view, funs_view, lemma_exprs_view_index, Data, DataModel,
    Expr, ExprModel, FunModel, Function, Intrinsic,
};
use crate::lexer::push_char;

verus! {

// ---------------------------------------------------------------------------
// Decimal rendering
// ---------------------------------------------------------------------------

/// The ASCII digit for one decimal place.
pub open spec fn digit_char(d: int) -> char {
    if d == 0 {
        '0'
    } else if d == 1 {
        '1'
    } else if d == 2 {
        '2'
    } else if d == 3 {
        '3'
    } else if d == 4 {
        '4'
    } else if d == 5 {
        '5'
    } else if d == 6 {
        '6'
    } else if d == 7 {
        '7'
    } else if d == 8 {
        '8'
    } else {
        '9'
    }
}

/// The decimal rendering of a number, most significant digit first and
/// without leading zeroes (a lone zero for zero itself).
pub open spec fn dec_nat(n: int) -> Seq<char>
    decreases n when n >= 0
{
    if n < 10 {
        seq![digit_char(n)]
    } else {
        dec_nat(n / 10).push(digit_char(n % 10))
    }
}

fn digit10(d: usize) -> (c: char)
    requires
        d < 10,
    ensures
        c == digit_char(d as int),
{
    if d == 0 {
        '0'
    } else if d == 1 {
        '1'
    } else if d == 2 {
        '2'
    } else if d == 3 {
        '3'
    } else if d == 4 {
        '4'
    } else if d == 5 {
        '5'
    } else if d == 6 {
        '6'
    } else if d == 7 {
        '7'
    } else if d == 8 {
        '8'
    } else {
        '9'
    }
}

fn usize_dec(n: usize) -> (s: String)
    ensures
        s@ == dec_nat(n as int),
    decreases n,
{
    if n < 10 {
        let mut s = String::new();
        push_char(&mut s, digit10(n));
        proof {
            assert(s@ =~= seq![digit_char(n as int)]);
        }
        s
    } else {
        let mut s = usize_dec(n / 10);
        push_char(&mut s, digit10(n % 10));
        s
    }
}

// ---------------------------------------------------------------------------
// Name resolution at generation time
// ---------------------------------------------------------------------------

/// Whether some function in the list bears this name; calls are resolved
/// by exact name match against the full list, library and user functions
/// alike.
pub open spec fn resolves(funs: Seq<FunModel>, name: Seq<char>) -> bool {
    exists|j: int| 0 <= j < funs.len() && funs[j].name == name
}

/// The first callee name, in emission order, that resolves to no function:
/// for a call, its own callee is checked before its arguments.
pub open spec fn expr_bad_name(funs: Seq<FunModel>, e: ExprModel) -> Option<Seq<char>>
    decreases e, 0int,
{
    match e {
        ExprModel::Funcall { name, args } => if !resolves(funs, name) {
            Some(name)
        } else {
            exprs_bad_name(funs, args, 0)
        },
        _ => None,
    }
}

pub open spec fn exprs_bad_name(funs: Seq<FunModel>, es: Seq<ExprModel>, k: int) -> Option<
    Seq<char>,
>
    decreases es, es.len() - k + 1 when 0 <= k <= es.len()
{
    if k >= es.len() {
        None
    } else {
        match expr_bad_name(funs, es[k]) {
            Some(nm) => Some(nm),
            None => exprs_bad_name(funs, es, k + 1),
        }
    }
}

pub open spec fn fun_bad_name(funs: Seq<FunModel>, f: FunModel) -> Option<Seq<char>> {
    exprs_bad_name(funs, f.exprs, 0)
}

pub open spec fn funs_bad_name(funs: Seq<FunModel>, fs: Seq<FunModel>, k: int) -> Option<Seq<char>>
    decreases fs.len() - k when 0 <= k <= fs.len()
{
    if k >= fs.len() {
        None
    } else {
        match fun_bad_name(funs, fs[k]) {
            Some(nm) => Some(nm),
            None => funs_bad_name(funs, fs, k + 1),
        }
    }
}

/// The first unresolved callee name in the whole unit, or nothing when
/// every call resolves.
pub open spec fn unit_bad_name(funs: Seq<FunModel>) -> Option<Seq<char>> {
    funs_bad_name(funs, funs, 0)
}

// ---------------------------------------------------------------------------
// The emitted text
// ---------------------------------------------------------------------------

/// The fixed prologue: entry point, a call to `main`, and a process exit
/// with status 0.
pub open spec fn header_asm() -> Seq<char> {
    "BITS 64\nglobal _start\nsection .text\n_start:\n    call main\nexit:\n    mov rdi, 0\n    mov rax, 60\n    syscall\n"@
}

/// The fixed template of the print primitive: the top of the evaluation
/// stack is taken as an address and a length and written to standard
/// output in a single system call.
pub open spec fn print_asm() -> Seq<char> {
    "    mov rax, 1\n    mov rdi, 1\n    pop r8\n    pop rsi\n    pop rdx\n    syscall\n    push r8\n"@
}

/// The fixed template of the numeric print primitive: the number on top
/// of the evaluation stack is formatted into the scratch buffer and
/// written to standard output.
pub open spec fn print_num_asm() -> Seq<char> {
    "    pop r9\n    pop rax\n    lea rsi, [__stringspace + 10]\n    mov rcx, 0\nprint_num_digits:\n    xor rdx, rdx\n    mov rbx, 10\n    div rbx\n    add rdx, '0'\n    dec rsi\n    mov [rsi], dl\n    inc rcx\n    test rax, rax\n    jnz print_num_digits\n    mov rax, 1\n    mov rdi, 1\n    mov rdx, rcx\n    syscall\n    push r9\n"@
        + "\n"@
}

/// The closing uninitialized-data section: one small fixed scratch buffer.
pub open spec fn bss_asm() -> Seq<char> {
    "section .bss\n__stringspace resb 10\n"@
}

/// What one expression appends to the text built so far: a call pushes
/// its arguments left to right and then calls the callee's label; a
/// string literal pushes its byte length and its label's address; a
/// global reference loads its cell and pushes the value; an intrinsic is
/// its fixed template.
pub open spec fn expr_asm(funs: Seq<FunModel>, e: ExprModel, acc: Seq<char>) -> Seq<char>
    decreases e, 0int,
{
    match e {
        ExprModel::Funcall { name, args } => exprs_asm(funs, args, 0, acc) + "    call "@ + name
            + "\n\n"@,
        ExprModel::StrLit { n, len } => acc + "    push "@ + dec_nat(len) + "\n"@
            + "    push str_"@ + dec_nat(n) + "\n"@,
        ExprModel::Var(name) => acc + "    mov eax, [global_var_"@ + name + "]\n"@
            + "    push rax\n"@,
        ExprModel::Intrinsic(Intrinsic::Print) => acc + print_asm(),
        ExprModel::Intrinsic(Intrinsic::PrintNum) => acc + print_num_asm(),
    }
}

pub open spec fn exprs_asm(funs: Seq<FunModel>, es: Seq<ExprModel>, k: int, acc: Seq<char>) -> Seq<
    char,
>
    decreases es, es.len() - k + 1 when 0 <= k <= es.len()
{
    if k >= es.len() {
        acc
    } else {
        exprs_asm(funs, es, k + 1, expr_asm(funs, es[k], acc))
    }
}

/// One function's block: its label, its body expressions in order, and a
/// return instruction.
pub open spec fn fun_asm(funs: Seq<FunModel>, f: FunModel, acc: Seq<char>) -> Seq<char> {
    exprs_asm(funs, f.exprs, 0, acc + f.name + ":\n"@) + "    ret\n"@
}

pub open spec fn funs_asm(funs: Seq<FunModel>, fs: Seq<FunModel>, k: int, acc: Seq<char>) -> Seq<
    char,
>
    decreases fs.len() - k when 0 <= k <= fs.len()
{
    if k >= fs.len() {
        acc
    } else {
        funs_asm(funs, fs, k + 1, fun_asm(funs, fs[k], acc))
    }
}

/// The decimal byte values of a byte sequence, each followed by a comma.
pub open spec fn bytes_repr(bs: Seq<u8>, k: int, acc: Seq<char>) -> Seq<char>
    decreases bs.len() - k when 0 <= k <= bs.len()
{
    if k >= bs.len() {
        acc
    } else {
        bytes_repr(bs, k + 1, acc + dec_nat(bs[k] as int) + ","@)
    }
}

/// One labeled byte array per pool string, in pool order, holding the
/// string's UTF-8 bytes.
pub open spec fn strings_asm(strings: Seq<Seq<char>>, k: int, acc: Seq<char>) -> Seq<char>
    decreases strings.len() - k when 0 <= k <= strings.len()
{
    if k >= strings.len() {
        acc
    } else {
        strings_asm(
            strings,
            k + 1,
            bytes_repr(encode_utf8(strings[k]), 0, acc + "str_"@ + dec_nat(k) + " db "@) + "\n"@,
        )
    }
}

/// One zero-initialized 32-bit cell per declared global, in declaration
/// order.
pub open spec fn globals_asm(globals: Seq<Seq<char>>, k: int, acc: Seq<char>) -> Seq<char>
    decreases globals.len() - k when 0 <= k <= globals.len()
{
    if k >= globals.len() {
        acc
    } else {
        globals_asm(globals, k + 1, acc + "global_var_"@ + globals[k] + " dd 0\n"@)
    }
}

/// The whole translation unit: prologue, one block per function in list
/// order, the string pool, the global cells, and the scratch buffer.
pub open spec fn unit_asm(funs: Seq<FunModel>, data: DataModel) -> Seq<char> {
    globals_asm(
        data.globals,
        0,
        strings_asm(data.strings, 0, funs_asm(funs, funs, 0, header_asm())),
    ) + bss_asm()
}

// ---------------------------------------------------------------------------
// The code generator
// ---------------------------------------------------------------------------


/// The library names always resolve: a function list produced by a whole
/// parse keeps the library primitives as its first entries, so a call to
/// `print` or `print_num` never fails name resolution, whatever the
/// program defined.
pub proof fn theorem_library_names_resolve(
    src: Seq<char>,
    funs: Seq<FunModel>,
    data: DataModel,
)
    requires
        crate::parser::spec_parse_top(
            src,
            0,
            crate::parser::stdlib_model(),
            crate::parser::empty_data(),
        ) == (crate::parser::TopOut::Done { funs, data }),
    ensures
        resolves(funs, "print"@),
        resolves(funs, "print_num"@),
{
    crate::parser::lemma_top_pool(src, 0, crate::parser::stdlib_model(), crate::parser::empty_data());
    let sm = crate::parser::stdlib_model();
    assert(funs.subrange(0, 2)[0] == funs[0]);
    assert(funs.subrange(0, 2)[1] == funs[1]);
    assert(funs[0].name == "print"@);
    assert(funs[1].name == "print_num"@);
}

fn has_fun(funs: &Vec<Function>, name: &String) -> (r: bool)
    ensures
        r == resolves(funs_view(funs@), name@),
{
    let mut k: usize = 0;
    while k < funs.len()
        invariant
            0 <= k <= funs@.len(),
            forall|j: int| 0 <= j < k ==> funs_view(funs@)[j].name != name@,
        decreases funs@.len() - k,
    {
        if funs[k].name == *name {
            proof {
                assert(funs_view(funs@)[k as int].name == name@);
            }
            return true;
        }
        proof {
            assert(funs_view(funs@)[k as int].name == funs@[k as int].name@);
        }
        k += 1;
    }
    false
}

fn expr_to_nasm(out: &mut String, funs: &Vec<Function>, expr: &Expr) -> (r: Result<
    (),
    CompileError,
>)
    ensures
        match expr_bad_name(funs_view(funs@), expr_view(*expr)) {
            None => r is Ok && final(out)@ == expr_asm(
                funs_view(funs@),
                expr_view(*expr),
                old(out)@,
            ),
            Some(nm) => r matches Err(e) && err_view(e) == ErrView::Name(nm),
        },
    decreases *expr,
{
    match expr {
        Expr::Funcall { name, args } => {
            if !has_fun(funs, name) {
                return Err(CompileError::Name { name: name.clone() });
            }
            proof {
                lemma_exprs_view_index(args@);
            }
            let mut k: usize = 0;
            while k < args.len()
                invariant
                    (*expr == Expr::Funcall { name: *name, args: *args }),
                    0 <= k <= exprs_view(args@).len(),
                    exprs_view(args@).len() == args@.len(),
                    resolves(funs_view(funs@), name@),
                    exprs_asm(funs_view(funs@), exprs_view(args@), k as int, out@) == exprs_asm(
                        funs_view(funs@),
                        exprs_view(args@),
                        0,
                        old(out)@,
                    ),
                    exprs_bad_name(funs_view(funs@), exprs_view(args@), 0) == exprs_bad_name(
                        funs_view(funs@),
                        exprs_view(args@),
                        k as int,
                    ),
                decreases args@.len() - k,
            {
                proof {
                    lemma_exprs_view_index(args@);
                    assert(decreases_to!(*expr => *args));
                    assert(decreases_to!(*args => args[k as int]));
                }
                match expr_to_nasm(out, funs, &args[k]) {
                    Err(e) => {
                        return Err(e);
                    },
                    Ok(_) => {},
                }
                k += 1;
            }
            out.append("    call ");
            out.append(name.as_str());
            out.append("\n\n");
            Ok(())
        },
        Expr::StrLit { n, len } => {
            out.append("    push ");
            let s1 = usize_dec(*len);
            out.append(s1.as_str());
            out.append("\n");
            out.append("    push str_");
            let s2 = usize_dec(*n);
            out.append(s2.as_str());
            out.append("\n");
            Ok(())
        },
        Expr::Var(name) => {
            out.append("    mov eax, [global_var_");
            out.append(name.as_str());
            out.append("]\n");
            out.append("    push rax\n");
            Ok(())
        },
        Expr::Intrinsic(Intrinsic::Print) => {
            out.append(
                "    mov rax, 1\n    mov rdi, 1\n    pop r8\n    pop rsi\n    pop rdx\n    syscall\n    push r8\n",
            );
            Ok(())
        },
        Expr::Intrinsic(Intrinsic::PrintNum) => {
            out.append(
                "    pop r9\n    pop rax\n    lea rsi, [__stringspace + 10]\n    mov rcx, 0\nprint_num_digits:\n    xor rdx, rdx\n    mov rbx, 10\n    div rbx\n    add rdx, '0'\n    dec rsi\n    mov [rsi], dl\n    inc rcx\n    test rax, rax\n    jnz print_num_digits\n    mov rax, 1\n    mov rdi, 1\n    mov rdx, rcx\n    syscall\n    push r9\n",
            );
            out.append("\n");
            Ok(())
        },
    }
}

fn fundef_to_nasm(out: &mut String, fun: &Function, funs: &Vec<Function>) -> (r: Result<
    (),
    CompileError,
>)
    ensures
        match fun_bad_name(funs_view(funs@), fun_view(*fun)) {
            None => r is Ok && final(out)@ == fun_asm(funs_view(funs@), fun_view(*fun), old(out)@),
            Some(nm) => r matches Err(e) && err_view(e) == ErrView::Name(nm),
        },
{
    out.append(fun.name.as_str());
    out.append(":\n");
    proof {
        lemma_exprs_view_index(fun.exprs@);
    }
    let mut k: usize = 0;
    while k < fun.exprs.len()
        invariant
            0 <= k <= exprs_view(fun.exprs@).len(),
            exprs_view(fun.exprs@).len() == fun.exprs@.len(),
            exprs_asm(funs_view(funs@), exprs_view(fun.exprs@), k as int, out@) == exprs_asm(
                funs_view(funs@),
                exprs_view(fun.exprs@),
                0,
                old(out)@ + fun.name@ + ":\n"@,
            ),
            exprs_bad_name(funs_view(funs@), exprs_view(fun.exprs@), 0) == exprs_bad_name(
                funs_view(funs@),
                exprs_view(fun.exprs@),
                k as int,
            ),
        decreases fun.exprs@.len() - k,
    {
        proof {
            lemma_exprs_view_index(fun.exprs@);
        }
        match expr_to_nasm(out, funs, &fun.exprs[k]) {
            Err(e) => {
                return Err(e);
            },
            Ok(_) => {},
        }
        k += 1;
    }
    out.append("    ret\n");
    Ok(())
}

/// Emits the whole translation unit as assembly text, or reports the
/// first callee name that resolves to no function; nothing is written
/// anywhere and no external tool is involved here.
pub fn to_linux_nasm_x64(funs: &Vec<Function>, data: &Data) -> (r: Result<String, CompileError>)
    ensures
        match unit_bad_name(funs_view(funs@)) {
            None => r matches Ok(s) && s@ == unit_asm(funs_view(funs@), data_view(*data)),
            Some(nm) => r matches Err(e) && err_view(e) == ErrView::Name(nm),
        },
{
    let mut out = String::new();
    out.append(
        "BITS 64\nglobal _start\nsection .text\n_start:\n    call main\nexit:\n    mov rdi, 0\n    mov rax, 60\n    syscall\n",
    );
    proof {
        assert(out@ =~= header_asm());
    }
    let mut k: usize = 0;
    while k < funs.len()
        invariant
            0 <= k <= funs_view(funs@).len(),
            funs_view(funs@).len() == funs@.len(),
            funs_asm(funs_view(funs@), funs_view(funs@), k as int, out@) == funs_asm(
                funs_view(funs@),
                funs_view(funs@),
                0,
                header_asm(),
            ),
            funs_bad_name(funs_view(funs@), funs_view(funs@), 0) == funs_bad_name(
                funs_view(funs@),
                funs_view(funs@),
                k as int,
            ),
        decreases funs@.len() - k,
    {
        proof {
            assert(funs_view(funs@)[k as int] == fun_view(funs@[k as int]));
        }
        match fundef_to_nasm(&mut out, &funs[k], funs) {
            Err(e) => {
                return Err(e);
            },
            Ok(_) => {},
        }
        k += 1;
    }
    let ghost after_funs = out@;
    let mut k2: usize = 0;
    while k2 < data.strings.len()
        invariant
            0 <= k2 <= data_view(*data).strings.len(),
            data_view(*data).strings.len() == data.strings@.len(),
            strings_asm(data_view(*data).strings, k2 as int, out@) == strings_asm(
                data_view(*data).strings,
                0,
                after_funs,
            ),
        decreases data.strings@.len() - k2,
    {
        out.append("str_");
        let sk = usize_dec(k2);
        out.append(sk.as_str());
        out.append(" db ");
        let ghost line_start = out@;
        let bs = data.strings[k2].as_str().as_bytes_vec();
        proof {
            assert(data_view(*data).strings[k2 as int] == data.strings@[k2 as int]@);
        }
        let mut j: usize = 0;
        while j < bs.len()
            invariant
                0 <= j <= bs@.len(),
                bytes_repr(bs@, j as int, out@) == bytes_repr(bs@, 0, line_start),
            decreases bs@.len() - j,
        {
            let b = bs[j];
            let sb = usize_dec(b as usize);
            out.append(sb.as_str());
            out.append(",");
            j += 1;
        }
        out.append("\n");
        k2 += 1;
    }
    let ghost after_strings = out@;
    let mut k3: usize = 0;
    while k3 < data.globals.len()
        invariant
            0 <= k3 <= data_view(*data).globals.len(),
            data_view(*data).globals.len() == data.globals@.len(),
            globals_asm(data_view(*data).globals, k3 as int, out@) == globals_asm(
                data_view(*data).globals,
                0,
                after_strings,
            ),
        decreases data.globals@.len() - k3,
    {
        proof {
            assert(data_view(*data).globals[k3 as int] == data.globals@[k3 as int]@);
        }
        out.append("global_var_");
        out.append(data.globals[k3].as_str());
        out.append(" dd 0\n");
        k3 += 1;
    }
    out.append("section .bss\n__stringspace resb 10\n");
    Ok(out)
}

} // verus!
