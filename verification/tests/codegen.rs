use programming_language::compile_source;
use programming_language::error::CompileError;
use programming_language::lexer::Lexer;
use programming_language::nasm::to_linux_nasm_x64;
use programming_language::parser::parse;

const HEADER: &str = "BITS 64\nglobal _start\nsection .text\n_start:\n    call main\nexit:\n    mov rdi, 0\n    mov rax, 60\n    syscall\n";

const PRINT_BLOCK: &str = "    mov rax, 1\n    mov rdi, 1\n    pop r8\n    pop rsi\n    pop rdx\n    syscall\n    push r8\n";

const PRINT_NUM_BLOCK: &str = "    pop r9\n    pop rax\n    lea rsi, [__stringspace + 10]\n    mov rcx, 0\nprint_num_digits:\n    xor rdx, rdx\n    mov rbx, 10\n    div rbx\n    add rdx, '0'\n    dec rsi\n    mov [rsi], dl\n    inc rcx\n    test rax, rax\n    jnz print_num_digits\n    mov rax, 1\n    mov rdi, 1\n    mov rdx, rcx\n    syscall\n    push r9\n\n";

const BSS: &str = "section .bss\n__stringspace resb 10\n";

#[test]
fn codegen_hi_program_layout() {
    let text = compile_source("hi.prl", "fn main(){ print(\"hi\"); }").unwrap();
    // the data section holds the two bytes of the literal
    assert!(text.contains("str_0 db 104,105,\n"));
    // main pushes the byte length, then the literal's address, then calls
    let main_block = "main:\n    push 2\n    push str_0\n    call print\n\n    ret\n";
    assert!(text.contains(main_block));
    // the print block holds the fixed intrinsic sequence
    let print_block = format!("print:\n{}    ret\n", PRINT_BLOCK);
    assert!(text.contains(&print_block));
    assert!(text.starts_with(HEADER));
    assert!(text.ends_with(BSS));
}

#[test]
fn codegen_empty_main_exact_text() {
    let text = compile_source("empty.prl", "fn main(){}").unwrap();
    let expected = format!(
        "{}print:\n{}    ret\nprint_num:\n{}    ret\nmain:\n    ret\n{}",
        HEADER, PRINT_BLOCK, PRINT_NUM_BLOCK, BSS
    );
    assert_eq!(text, expected);
}

#[test]
fn codegen_unknown_callee_rejected() {
    let mut lexer = Lexer::new("test.prl", "fn main(){ foo(); }");
    let (funs, data) = parse(&mut lexer).unwrap();
    match to_linux_nasm_x64(&funs, &data) {
        Err(CompileError::Name { name }) => assert_eq!(name, "foo"),
        other => panic!("expected name error, got {:?}", other),
    }
}

#[test]
fn codegen_library_names_resolve() {
    let text =
        compile_source("lib.prl", "fn main(){ print(\"a\"); print_num(); }").unwrap();
    assert!(text.contains("    call print\n"));
    assert!(text.contains("    call print_num\n"));
}

#[test]
fn codegen_user_function_call_resolves() {
    let text = compile_source("two.prl", "fn helper(){} fn main(){ helper(); }").unwrap();
    assert!(text.contains("helper:\n    ret\n"));
    assert!(text.contains("main:\n    call helper\n\n    ret\n"));
}

#[test]
fn codegen_global_cells_and_loads() {
    let text = compile_source("glob.prl", "let g; fn main(){ print(g); }").unwrap();
    assert!(text.contains("global_var_g dd 0\n"));
    assert!(text.contains("    mov eax, [global_var_g]\n    push rax\n"));
}

#[test]
fn codegen_multibyte_literal_bytes() {
    // one two-byte character: byte length 2, bytes 195 and 136
    let text = compile_source("uni.prl", "fn main(){ print(\"\u{c8}\"); }").unwrap();
    assert!(text.contains("str_0 db 195,136,\n"));
    assert!(text.contains("    push 2\n    push str_0\n"));
}

#[test]
fn codegen_empty_literal_empty_bytes() {
    let text = compile_source("e.prl", "fn main(){ print(\"\"); }").unwrap();
    assert!(text.contains("str_0 db \n"));
    assert!(text.contains("    push 0\n    push str_0\n"));
}

#[test]
fn codegen_pool_order_kept() {
    let text = compile_source(
        "two.prl",
        "fn main(){ print(\"ab\"); print(\"c\"); }",
    )
    .unwrap();
    assert!(text.contains("str_0 db 97,98,\nstr_1 db 99,\n"));
}

#[test]
fn compile_name_failure_before_any_text() {
    match compile_source("x.prl", "fn main(){ print(x); }") {
        Err(CompileError::Name { name }) => assert_eq!(name, "x"),
        other => panic!("expected name error, got {:?}", other),
    }
}

#[test]
fn compile_reports_scan_failure() {
    match compile_source("bad.prl", "fn main(){ @ }") {
        Err(CompileError::Syntax { file, .. }) => assert_eq!(file, "bad.prl"),
        other => panic!("expected syntax error, got {:?}", other),
    }
}
