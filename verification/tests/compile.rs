use elfgen::data::{FunctionStEntry, St, StEntry, StEntryKind};
use elfgen::error::BackendError;
use elfgen::ir_gen::X64LinuxElfCodegen;
use elfgen::program::{run, Code, Expression, Item, JsonSt, Statement, StEntryRef};

fn le64(x: u64) -> Vec<u8> {
    let mut out = Vec::new();
    for i in 0..8 {
        out.push(((x >> (8 * i)) & 0xff) as u8);
    }
    out
}

fn entry(lexeme: &str) -> StEntry {
    StEntry {
        lexeme: lexeme.to_string(),
        kind: StEntryKind::Function(FunctionStEntry {
            args: Vec::new(),
            ret: "u64".to_string(),
            inner_st: 1,
        }),
    }
}

/// The hello-world program: main() { syscall(1, 1, "hi\n", 3); return; },
/// a Linux write(1, "hi\n", 3) followed by the synthesized exit path.
fn hello_world() -> (Code, JsonSt) {
    let st: JsonSt = vec![vec![entry("main")]];
    let code: Code = vec![Item::Function {
        entry: StEntryRef { st_idx: 0, idx: 0 },
        body: vec![
            Statement::Syscall {
                syscall: Expression::IntConst { val: 1 },
                args: vec![
                    Expression::IntConst { val: 1 },
                    Expression::StrConst { val: "hi\n".to_string() },
                    Expression::IntConst { val: 3 },
                ],
            },
            Statement::Return { inner: None },
        ],
    }];
    (code, st)
}

/// The machine code the hello-world program compiles to, by hand.
fn hello_world_code_bytes() -> Vec<u8> {
    let mut code: Vec<u8> = Vec::new();
    // main: push rbp; mov rbp, rsp
    code.extend_from_slice(&[0x55, 0x48, 0x89, 0xe5]);
    // mov rax, 1 (the syscall number, already in the syscall register)
    code.extend_from_slice(&[0x48, 0xb8]);
    code.extend_from_slice(&le64(1));
    // mov rcx, 1; mov rdi, rcx (argument 0)
    code.extend_from_slice(&[0x48, 0xb9]);
    code.extend_from_slice(&le64(1));
    code.extend_from_slice(&[0x48, 0x89, 0xcf]);
    // mov rcx, <rodata base>; mov rsi, rcx (argument 1: the string)
    code.extend_from_slice(&[0x48, 0xb9]);
    code.extend_from_slice(&le64(0x11000));
    code.extend_from_slice(&[0x48, 0x89, 0xce]);
    // mov rcx, 3; mov rdx, rcx (argument 2)
    code.extend_from_slice(&[0x48, 0xb9]);
    code.extend_from_slice(&le64(3));
    code.extend_from_slice(&[0x48, 0x89, 0xca]);
    // syscall
    code.extend_from_slice(&[0x0f, 0x05]);
    // mov rsp, rbp; pop rbp; ret
    code.extend_from_slice(&[0x48, 0x89, 0xec, 0x5d, 0xc3]);
    // entry harness: mov rax, <main = 0x10000>; call rax
    code.extend_from_slice(&[0x48, 0xb8]);
    code.extend_from_slice(&le64(0x10000));
    code.extend_from_slice(&[0xff, 0xd0]);
    // mov rdi, rax; mov rax, 60; syscall (the exit path)
    code.extend_from_slice(&[0x48, 0x89, 0xc7]);
    code.extend_from_slice(&[0x48, 0xb8]);
    code.extend_from_slice(&le64(60));
    code.extend_from_slice(&[0x0f, 0x05]);
    code
}

#[test]
fn hello_world_compiles_to_the_exact_image() {
    let (code, st) = hello_world();
    let out = run(code, X64LinuxElfCodegen::new(st)).unwrap();

    let code_bytes = hello_world_code_bytes();
    assert_eq!(code_bytes.len(), 87);
    // 64-byte ELF header, two 56-byte program headers, 87 bytes of code,
    // 4 bytes of read-only data ("hi\n" plus the terminating zero).
    assert_eq!(out.len(), 64 + 112 + 87 + 4);

    // ELF header: magic, 64-bit, little-endian, Linux, EXEC, x86-64.
    assert_eq!(&out[0..8], &[0x7f, 0x45, 0x4c, 0x46, 2, 1, 1, 3]);
    assert_eq!(&out[16..20], &[2, 0, 62, 0]);
    // The entry point is the synthesized harness after main's 60 bytes.
    assert_eq!(&out[24..32], le64(0x1003c).as_slice());
    // Two program headers.
    assert_eq!(&out[56..58], &[2, 0]);

    // Code segment header: R+X, file offset 176, at 0x10000, 87 bytes.
    assert_eq!(&out[64..68], &[1, 0, 0, 0]);
    assert_eq!(&out[68..72], &[5, 0, 0, 0]);
    assert_eq!(&out[72..80], le64(176).as_slice());
    assert_eq!(&out[80..88], le64(0x10000).as_slice());
    assert_eq!(&out[96..104], le64(87).as_slice());
    assert_eq!(&out[104..112], le64(87).as_slice());

    // Rodata segment header: R, file offset 263, at the page boundary
    // after the code, 4 bytes.
    assert_eq!(&out[120..124], &[1, 0, 0, 0]);
    assert_eq!(&out[124..128], &[4, 0, 0, 0]);
    assert_eq!(&out[128..136], le64(263).as_slice());
    assert_eq!(&out[136..144], le64(0x11000).as_slice());
    assert_eq!(&out[152..160], le64(4).as_slice());

    // The payloads.
    assert_eq!(&out[176..263], code_bytes.as_slice());
    assert_eq!(&out[263..267], b"hi\n\0");
}

#[test]
fn compiling_the_same_program_twice_gives_identical_bytes() {
    let (code1, st1) = hello_world();
    let (code2, st2) = hello_world();
    let out1 = run(code1, X64LinuxElfCodegen::new(st1)).unwrap();
    let out2 = run(code2, X64LinuxElfCodegen::new(st2)).unwrap();
    assert_eq!(out1, out2);
}

#[test]
fn a_program_without_the_entry_symbol_is_rejected() {
    let st: JsonSt = vec![vec![entry("helper")]];
    let code: Code = vec![Item::Function {
        entry: StEntryRef { st_idx: 0, idx: 0 },
        body: vec![Statement::Return { inner: None }],
    }];
    assert_eq!(
        run(code, X64LinuxElfCodegen::new(st)).unwrap_err(),
        BackendError::MissingEntryFunction
    );
}

#[test]
fn a_returned_value_lands_in_the_return_register() {
    // main() { return 7; } compiles, and the body moves 7 into rax.
    let st: JsonSt = vec![vec![entry("main")]];
    let code: Code = vec![Item::Function {
        entry: StEntryRef { st_idx: 0, idx: 0 },
        body: vec![Statement::Return { inner: Some(Expression::IntConst { val: 7 }) }],
    }];
    let out = run(code, X64LinuxElfCodegen::new(st)).unwrap();
    // push rbp; mov rbp, rsp; mov rax, 7 (already the return register);
    // mov rsp, rbp; pop rbp; ret — then the 27-byte entry harness.
    let mut body: Vec<u8> = vec![0x55, 0x48, 0x89, 0xe5, 0x48, 0xb8];
    body.extend_from_slice(&le64(7));
    body.extend_from_slice(&[0x48, 0x89, 0xec, 0x5d, 0xc3]);
    let code_start = 64 + 112;
    assert_eq!(&out[code_start..code_start + body.len()], body.as_slice());
}

#[test]
fn an_oversized_string_constant_is_rejected() {
    let st: JsonSt = vec![vec![entry("main")]];
    let huge = "x".repeat(0x0800_0000);
    let code: Code = vec![Item::Function {
        entry: StEntryRef { st_idx: 0, idx: 0 },
        body: vec![Statement::Return { inner: Some(Expression::StrConst { val: huge }) }],
    }];
    assert_eq!(
        run(code, X64LinuxElfCodegen::new(st)).unwrap_err(),
        BackendError::DataTooLarge
    );
}

#[test]
fn an_empty_program_has_no_entry_symbol() {
    let st: JsonSt = vec![vec![]];
    assert_eq!(
        run(Vec::new(), X64LinuxElfCodegen::new(st)).unwrap_err(),
        BackendError::MissingEntryFunction
    );
}

#[test]
fn the_entry_harness_calls_main_wherever_it_is() {
    // Two functions; the designated entry symbol comes second.
    let st: JsonSt = vec![vec![entry("helper"), entry("main")]];
    let code: Code = vec![
        Item::Function {
            entry: StEntryRef { st_idx: 0, idx: 0 },
            body: vec![Statement::Return { inner: None }],
        },
        Item::Function {
            entry: StEntryRef { st_idx: 0, idx: 1 },
            body: vec![Statement::Return { inner: None }],
        },
    ];
    let out = run(code, X64LinuxElfCodegen::new(st)).unwrap();
    // Each function is 9 bytes (4-byte prologue, 5-byte epilogue); the
    // 27-byte entry harness follows, so the code is 45 bytes in all.
    assert_eq!(out.len(), 64 + 112 + 45);
    // The entry point is the harness, after both functions.
    assert_eq!(&out[24..32], le64(0x10012).as_slice());
    // The harness loads main's address — the second function's — to call it.
    assert_eq!(&out[176 + 18 + 2..176 + 18 + 10], le64(0x10009).as_slice());
}

#[test]
fn symbol_records_expose_their_function_entry() {
    let st: JsonSt = vec![vec![entry("main")]];
    let record = st.get(StEntryRef { st_idx: 0, idx: 0 });
    assert_eq!(record.lexeme, "main");
    let f = record.kind.unwrap_function().unwrap();
    assert_eq!(f.ret, "u64");
    assert_eq!(f.inner_st, 1);
    assert!(f.args.is_empty());
}
