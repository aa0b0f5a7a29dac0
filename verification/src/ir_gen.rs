//! The codegen driver: one pass over the IR, no backtracking.
//!
//! The driver owns the register pool, the emitter, a growing read-only data
//! buffer, and the symbol table for the run. It walks functions, statements
//! and expressions, allocates registers honouring the Linux syscall ABI,
//! emits abstract instructions, and finally assembles the executable image:
//! the code segment at the base address, the read-only data segment at the
//! next page boundary after the code, the entry point at the synthesized
//! program-entry harness.
//!
//! Every step is mirrored by a spec function over [`DriverView`], so the
//! whole compilation is a mathematical function of the input program and
//! symbol table.

use crate::codegen::Codegen;
use crate::data::{St, StEntry};
use crate::elf::{lemma_ehdr_bytes_len, lemma_elf_file_header, lemma_ph_bytes_shape,
    lemma_ph_table_slice, spec_elf_file, spec_payload_len, spec_ph_table, spec_seg_offset,
    BuilderView, ElfFileBuilder, SegView, PH_FLAGS_RX, PH_FLAG_R};
use crate::error::BackendError;
use crate::ir::syscall::{arg_register, return_reg, spec_arg_register, stack_frame_pointer,
    stack_pointer, syscall_reg, MAX_SYSCALL_ARGS, RETURN_REG_NUM, STACK_FRAME_POINTER_NUM,
    STACK_POINTER_NUM, SYSCALL_REG_NUM};
use crate::ir::{spec_alloc, spec_alloc_any, spec_free_reg, Constant, Instr, RegAllocation,
    Register, RegisterAllocator, RegisterRequest};
use crate::optimizer::{lookup_label, spec_accept, spec_add_label, spec_apply_relocs, spec_label,
    spec_new, LabelId, OptView, Optimizer, MAX_CODE_LEN};
use crate::program::{Expression, Item, JsonSt, Statement, StEntryRef};
use vstd::bytes::*;
use vstd::prelude::*;
use vstd::string::StrSliceExecFns;
use vstd::string::StringExecFns;
use vstd::utf8::encode_utf8;

verus! {

/// The page size the loader aligns segments to.
pub const PAGE_SIZE: u64 = 4096;

/// The base virtual address the code segment is linked for.
pub const INIT_CODE_ADDR: u64 = 0x10000;

/// Fixed limit on the read-only data buffer.
pub const MAX_DATA_LEN: usize = 0x0800_0000;

/// The exit-syscall number loaded by the synthesized program entry.
pub const EXIT_SYSCALL: u64 = 60;

/// The mathematical state of the driver: the read-only data buffer, the
/// emitter state, the symbol table, the free-register mask, the label of the
/// designated entry function if one was seen, and the offsets of the pending
/// data labels.
pub struct DriverView {
    pub data: Seq<u8>,
    pub opt: OptView,
    pub st: Seq<Vec<StEntry>>,
    pub avail: u16,
    pub main: Option<LabelId>,
    pub data_labels: Seq<u64>,
}

impl DriverView {
    /// The invariant every reachable driver state satisfies.
    pub open spec fn wf(self) -> bool {
        &&& self.opt.wf()
        &&& self.opt.init_addr == INIT_CODE_ADDR
        &&& self.data.len() <= MAX_DATA_LEN
        &&& forall|k: int|
            0 <= k < self.data_labels.len() ==> #[trigger] self.data_labels[k] <= self.data.len()
    }
}

/// The entry reference names an entry the symbol table holds.
pub open spec fn spec_valid_entry(st: Seq<Vec<StEntry>>, e: StEntryRef) -> bool {
    e.st_idx < st.len() && e.idx < st[e.st_idx as int]@.len()
}

/// The entry's lexeme is the designated program-entry name.
pub open spec fn spec_entry_is_main(st: Seq<Vec<StEntry>>, e: StEntryRef) -> bool {
    st[e.st_idx as int]@[e.idx as int].lexeme@ == "main"@
}

/// The register numbers behind a run of held allocations.
pub open spec fn spec_reg_nums(regs: Seq<RegAllocation>) -> Seq<u8> {
    regs.map_values(|r: RegAllocation| r@)
}

/// Returning a register to the pool, as the driver does it: record the
/// release in the instruction stream, then free the pool bit.
pub open spec fn spec_drv_free(v: DriverView, r: u8) -> Result<DriverView, BackendError> {
    match spec_accept(v.opt, Instr::FreeRegister(Register(r))) {
        Err(e) => Err(e),
        Ok(opt2) => match spec_free_reg(v.avail, r) {
            Err(e) => Err(e),
            Ok(m2) => Ok(DriverView { opt: opt2, avail: m2, ..v }),
        },
    }
}

/// Moving a value into a specific register: allocate the target, emit the
/// move, release the source.
pub open spec fn spec_move_to(v: DriverView, from: u8, to: u8) -> Result<
    DriverView,
    BackendError,
> {
    match spec_alloc(v.avail, to) {
        Err(e) => Err(e),
        Ok(m2) => match spec_accept(
            v.opt,
            Instr::MoveRegs { dest: Register(to), orig: Register(from) },
        ) {
            Err(e) => Err(e),
            Ok(opt2) => spec_drv_free(DriverView { avail: m2, opt: opt2, ..v }, from),
        },
    }
}

/// Evaluating one expression into a freshly allocated register.
///
/// An integer constant loads its value; a string constant appends its bytes
/// plus a terminating zero to the data buffer, remembers the offset as a
/// pending data label, and loads the to-be-resolved address of that offset.
pub open spec fn spec_gen_expression(v: DriverView, e: Expression) -> Result<
    (DriverView, u8),
    BackendError,
> {
    match e {
        Expression::IntConst { val } => match spec_alloc_any(v.avail) {
            Err(er) => Err(er),
            Ok((m2, r)) => match spec_accept(
                v.opt,
                Instr::SetConstant(Register(r), Constant::Value(val)),
            ) {
                Err(er) => Err(er),
                Ok(opt2) => Ok((DriverView { avail: m2, opt: opt2, ..v }, r)),
            },
        },
        Expression::StrConst { val } => {
            let bytes = encode_utf8(val@);
            if v.data.len() + bytes.len() + 1 > MAX_DATA_LEN {
                Err(BackendError::DataTooLarge)
            } else {
                match spec_alloc_any(v.avail) {
                    Err(er) => Err(er),
                    Ok((m2, r)) => {
                        let addr = v.data.len() as u64;
                        match spec_accept(
                            v.opt,
                            Instr::SetConstant(
                                Register(r),
                                Constant::Tbd(LabelId::DataAddr(addr)),
                            ),
                        ) {
                            Err(er) => Err(er),
                            Ok(opt2) => Ok(
                                (
                                    DriverView {
                                        data: v.data + bytes + seq![0u8],
                                        avail: m2,
                                        opt: opt2,
                                        data_labels: v.data_labels.push(addr),
                                        ..v
                                    },
                                    r,
                                ),
                            ),
                        }
                    },
                }
            }
        },
    }
}

/// Evaluating the argument expressions of a syscall, position by position:
/// each lands in the ABI register for its position, moved there when the
/// expression's own register differs. Returns the registers now held for
/// the arguments, in order.
pub open spec fn spec_gen_syscall_args(v: DriverView, args: Seq<Expression>, i: int) -> Result<
    (DriverView, Seq<u8>),
    BackendError,
>
    decreases args.len() - i,
{
    if i < 0 || i >= args.len() {
        Ok((v, Seq::empty()))
    } else {
        match spec_gen_expression(v, args[i]) {
            Err(e) => Err(e),
            Ok((v2, got)) => {
                let expected = spec_arg_register(i);
                if got == expected {
                    match spec_gen_syscall_args(v2, args, i + 1) {
                        Err(e) => Err(e),
                        Ok((v3, rest)) => Ok((v3, seq![got] + rest)),
                    }
                } else {
                    match spec_move_to(v2, got, expected) {
                        Err(e) => Err(e),
                        Ok(v3) => match spec_gen_syscall_args(v3, args, i + 1) {
                            Err(e) => Err(e),
                            Ok((v4, rest)) => Ok((v4, seq![expected] + rest)),
                        },
                    }
                }
            },
        }
    }
}

/// Releasing a run of registers, in order.
pub open spec fn spec_free_all(v: DriverView, regs: Seq<u8>, i: int) -> Result<
    DriverView,
    BackendError,
>
    decreases regs.len() - i,
{
    if i < 0 || i >= regs.len() {
        Ok(v)
    } else {
        match spec_drv_free(v, regs[i]) {
            Err(e) => Err(e),
            Ok(v2) => spec_free_all(v2, regs, i + 1),
        }
    }
}

/// A syscall statement: the syscall number lands in the syscall register,
/// the arguments in their ABI registers, the trap is emitted, and every
/// register used is released afterwards (the kernel's return value is not
/// retained).
pub open spec fn spec_gen_syscall(v: DriverView, sc: Expression, args: Seq<Expression>) -> Result<
    DriverView,
    BackendError,
> {
    match spec_gen_expression(v, sc) {
        Err(e) => Err(e),
        Ok((v1, r)) => {
            let moved = if r == SYSCALL_REG_NUM {
                Ok((v1, r))
            } else {
                match spec_move_to(v1, r, SYSCALL_REG_NUM) {
                    Err(e) => Err(e),
                    Ok(v2) => Ok((v2, SYSCALL_REG_NUM)),
                }
            };
            match moved {
                Err(e) => Err(e),
                Ok((v2, sreg)) => match spec_gen_syscall_args(v2, args, 0) {
                    Err(e) => Err(e),
                    Ok((v3, regs)) => match spec_accept(v3.opt, Instr::Syscall) {
                        Err(e) => Err(e),
                        Ok(opt4) => match spec_drv_free(DriverView { opt: opt4, ..v3 }, sreg) {
                            Err(e) => Err(e),
                            Ok(v5) => spec_free_all(v5, regs, 0),
                        },
                    },
                },
            }
        },
    }
}

/// The function epilogue: restore the stack pointer from the frame pointer,
/// restore the caller's frame pointer, return.
pub open spec fn spec_exit_harness(v: DriverView) -> Result<DriverView, BackendError> {
    match spec_accept(
        v.opt,
        Instr::MoveRegs {
            dest: Register(STACK_POINTER_NUM),
            orig: Register(STACK_FRAME_POINTER_NUM),
        },
    ) {
        Err(e) => Err(e),
        Ok(o2) => match spec_accept(o2, Instr::Pop(Register(STACK_FRAME_POINTER_NUM))) {
            Err(e) => Err(e),
            Ok(o3) => match spec_accept(o3, Instr::Ret) {
                Err(e) => Err(e),
                Ok(o4) => Ok(DriverView { opt: o4, ..v }),
            },
        },
    }
}

/// A return statement: the value, if any, lands in the return register
/// (which stays held), then the epilogue is emitted.
pub open spec fn spec_gen_return(v: DriverView, inner: Option<Expression>) -> Result<
    DriverView,
    BackendError,
> {
    let evaluated = match inner {
        Some(e) => match spec_gen_expression(v, e) {
            Err(er) => Err(er),
            Ok((v1, r)) => if r == RETURN_REG_NUM {
                Ok(v1)
            } else {
                spec_move_to(v1, r, RETURN_REG_NUM)
            },
        },
        None => Ok(v),
    };
    match evaluated {
        Err(e) => Err(e),
        Ok(v1) => spec_exit_harness(v1),
    }
}

/// The statement carries no more arguments than the ABI has registers for.
pub open spec fn spec_stmt_wf(stmt: Statement) -> bool {
    match stmt {
        Statement::Syscall { syscall: _, args } => args@.len() <= MAX_SYSCALL_ARGS,
        Statement::Return { .. } => true,
    }
}

/// One statement of a function body.
pub open spec fn spec_gen_statement(v: DriverView, stmt: Statement) -> Result<
    DriverView,
    BackendError,
> {
    match stmt {
        Statement::Syscall { syscall, args } => spec_gen_syscall(v, syscall, args@),
        Statement::Return { inner } => spec_gen_return(v, inner),
    }
}

/// The function prologue: save the caller's frame pointer, establish the
/// new frame pointer from the stack pointer.
pub open spec fn spec_enter_harness(v: DriverView) -> Result<DriverView, BackendError> {
    match spec_accept(v.opt, Instr::Push(Register(STACK_FRAME_POINTER_NUM))) {
        Err(e) => Err(e),
        Ok(o2) => match spec_accept(
            o2,
            Instr::MoveRegs {
                dest: Register(STACK_FRAME_POINTER_NUM),
                orig: Register(STACK_POINTER_NUM),
            },
        ) {
            Err(e) => Err(e),
            Ok(o3) => Ok(DriverView { opt: o3, ..v }),
        },
    }
}

/// Entering a function: define its label here, remember it when its lexeme
/// is the designated entry name, and emit the prologue.
pub open spec fn spec_enter_fn(v: DriverView, entry: StEntryRef) -> Result<
    DriverView,
    BackendError,
> {
    let lbl = LabelId::StLabel(entry);
    let v1 = DriverView { opt: spec_label(v.opt, lbl), ..v };
    let v2 = if spec_entry_is_main(v.st, entry) {
        DriverView { main: Some(lbl), ..v1 }
    } else {
        v1
    };
    spec_enter_harness(v2)
}

/// Assigning the final address of every pending data label, in order.
pub open spec fn spec_add_data_labels(o: OptView, lbls: Seq<u64>, base: u64, i: int) -> OptView
    decreases lbls.len() - i,
{
    if i < 0 || i >= lbls.len() {
        o
    } else {
        spec_add_data_labels(
            spec_add_label(o, LabelId::DataAddr(lbls[i]), (lbls[i] + base) as u64),
            lbls,
            base,
            i + 1,
        )
    }
}

/// The rodata base: the first page boundary at or after the end of the code.
pub open spec fn spec_data_dir(v: DriverView) -> int {
    let code_end = v.opt.init_addr + v.opt.code.len();
    if code_end % (PAGE_SIZE as int) == 0 {
        code_end
    } else {
        code_end + PAGE_SIZE - (code_end % (PAGE_SIZE as int))
    }
}

/// Finishing a run: synthesize the program-entry harness (call the entry
/// function, move its return value into the first syscall-argument register,
/// load the exit-syscall number, trap), place the rodata at the page
/// boundary after the code, resolve every relocation, and assemble the
/// image: the code segment then the read-only data segment, with the entry
/// point at the synthesized harness.
pub open spec fn spec_finish(v: DriverView) -> Result<Seq<u8>, BackendError> {
    match v.main {
        None => Err(BackendError::MissingEntryFunction),
        Some(main_lbl) => {
            let start = LabelId::CustomLabel(0);
            let v1 = DriverView { opt: spec_label(v.opt, start), ..v };
            match spec_accept(v1.opt, Instr::Call(main_lbl)) {
                Err(e) => Err(e),
                Ok(o2) => match spec_alloc(v1.avail, spec_arg_register(0)) {
                    Err(e) => Err(e),
                    Ok(_m3) => match spec_accept(
                        o2,
                        Instr::MoveRegs {
                            dest: Register(spec_arg_register(0)),
                            orig: Register(0),
                        },
                    ) {
                        Err(e) => Err(e),
                        Ok(o3) => match spec_accept(
                            o3,
                            Instr::SetConstant(Register(0), Constant::Value(EXIT_SYSCALL)),
                        ) {
                            Err(e) => Err(e),
                            Ok(o4) => match spec_accept(o4, Instr::Syscall) {
                                Err(e) => Err(e),
                                Ok(o5) => {
                                    let v5 = DriverView { opt: o5, ..v1 };
                                    let base = spec_data_dir(v5) as u64;
                                    let o6 = spec_add_data_labels(o5, v5.data_labels, base, 0);
                                    match lookup_label(o6.labels, start) {
                                        None => Err(BackendError::UnresolvedLabel),
                                        Some(ep) => match spec_apply_relocs(o6) {
                                            Err(e) => Err(e),
                                            Ok(code) => {
                                                let b = BuilderView {
                                                    segments: seq![
                                                        SegView {
                                                            flags: PH_FLAGS_RX,
                                                            memsz: code.len() as u64,
                                                            data: code,
                                                            vaddr: v5.opt.init_addr,
                                                            align: 16,
                                                        },
                                                        SegView {
                                                            flags: PH_FLAG_R,
                                                            memsz: v5.data.len() as u64,
                                                            data: v5.data,
                                                            vaddr: base,
                                                            align: 4,
                                                        },
                                                    ],
                                                    entrypoint: ep,
                                                };
                                                Ok(spec_elf_file(b))
                                            },
                                        },
                                    }
                                },
                            },
                        },
                    },
                },
            }
        },
    }
}

/// Every statement of the item is well-formed and its entry names a real
/// symbol-table record.
pub open spec fn spec_item_wf(st: Seq<Vec<StEntry>>, item: Item) -> bool {
    match item {
        Item::Function { entry, body } => spec_valid_entry(st, entry) && (forall|j: int|
            0 <= j < body@.len() ==> spec_stmt_wf(#[trigger] body@[j])),
    }
}

/// Every item of the program is well-formed.
pub open spec fn spec_code_wf(st: Seq<Vec<StEntry>>, code: Seq<Item>) -> bool {
    forall|i: int| 0 <= i < code.len() ==> spec_item_wf(st, #[trigger] code[i])
}

/// The statements of a function body, in order.
pub open spec fn spec_gen_body(v: DriverView, body: Seq<Statement>, i: int) -> Result<
    DriverView,
    BackendError,
>
    decreases body.len() - i,
{
    if i < 0 || i >= body.len() {
        Ok(v)
    } else {
        match spec_gen_statement(v, body[i]) {
            Err(e) => Err(e),
            Ok(v2) => spec_gen_body(v2, body, i + 1),
        }
    }
}

/// One top-level item: enter the function, then its body.
pub open spec fn spec_gen_item(v: DriverView, item: Item) -> Result<DriverView, BackendError> {
    match item {
        Item::Function { entry, body } => match spec_enter_fn(v, entry) {
            Err(e) => Err(e),
            Ok(v1) => spec_gen_body(v1, body@, 0),
        },
    }
}

/// The items of a program, in order.
pub open spec fn spec_run_items(v: DriverView, code: Seq<Item>, i: int) -> Result<
    DriverView,
    BackendError,
>
    decreases code.len() - i,
{
    if i < 0 || i >= code.len() {
        Ok(v)
    } else {
        match spec_gen_item(v, code[i]) {
            Err(e) => Err(e),
            Ok(v2) => spec_run_items(v2, code, i + 1),
        }
    }
}

/// One whole compilation: every item of the program, then the finish pass.
/// The result — the bytes of the executable, or the error — is a
/// mathematical function of the program and the initial driver state.
pub open spec fn spec_run(code: Seq<Item>, v: DriverView) -> Result<Seq<u8>, BackendError> {
    match spec_run_items(v, code, 0) {
        Err(e) => Err(e),
        Ok(vf) => spec_finish(vf),
    }
}

/// Law: every successful compilation is a single ELF64 executable image for
/// x86-64 Linux with exactly two loadable segments, in file order the code
/// (read + execute) and then the read-only data (read only).
#[verifier::spinoff_prover]
#[verifier::rlimit(60)]
pub proof fn lemma_finish_image_shape(v: DriverView, bytes: Seq<u8>)
    requires
        v.wf(),
        spec_finish(v) == Ok::<Seq<u8>, BackendError>(bytes),
    ensures
        bytes.subrange(0, 8) == seq![0x7fu8, 0x45u8, 0x4cu8, 0x46u8, 2u8, 1u8, 1u8, 3u8],
        bytes.subrange(16, 18) == spec_u16_to_le_bytes(2),  // type EXEC
        bytes.subrange(18, 20) == spec_u16_to_le_bytes(62),  // machine x86-64
        bytes.subrange(56, 58) == spec_u16_to_le_bytes(2),  // two program headers
        bytes.subrange(64, 68) == spec_u32_to_le_bytes(1),  // first segment: PT_LOAD
        bytes.subrange(68, 72) == spec_u32_to_le_bytes(PH_FLAGS_RX),
        bytes.subrange(120, 124) == spec_u32_to_le_bytes(1),  // second segment: PT_LOAD
        bytes.subrange(124, 128) == spec_u32_to_le_bytes(PH_FLAG_R),
{
    lemma_auto_spec_u16_to_from_le_bytes();
    lemma_auto_spec_u32_to_from_le_bytes();
    let main_lbl = v.main.unwrap();
    let start = LabelId::CustomLabel(0);
    let v1 = DriverView { opt: spec_label(v.opt, start), ..v };
    let o2 = spec_accept(v1.opt, Instr::Call(main_lbl)).unwrap();
    let o3 = spec_accept(
        o2,
        Instr::MoveRegs { dest: Register(spec_arg_register(0)), orig: Register(0) },
    ).unwrap();
    let o4 = spec_accept(o3, Instr::SetConstant(Register(0), Constant::Value(EXIT_SYSCALL))).unwrap();
    let o5 = spec_accept(o4, Instr::Syscall).unwrap();
    let v5 = DriverView { opt: o5, ..v1 };
    let base = spec_data_dir(v5) as u64;
    let o6 = spec_add_data_labels(o5, v5.data_labels, base, 0);
    let ep = lookup_label(o6.labels, start).unwrap();
    let code = spec_apply_relocs(o6).unwrap();
    let segs = seq![
        SegView {
            flags: PH_FLAGS_RX,
            memsz: code.len() as u64,
            data: code,
            vaddr: v5.opt.init_addr,
            align: 16,
        },
        SegView { flags: PH_FLAG_R, memsz: v5.data.len() as u64, data: v5.data, vaddr: base, align: 4 },
    ];
    let b = BuilderView { segments: segs, entrypoint: ep };
    assert(bytes == spec_elf_file(b));
    lemma_elf_file_header(b);
    lemma_ehdr_bytes_len(b.entrypoint, 64, 2);
    lemma_ph_table_slice(segs, 2, 0);
    lemma_ph_table_slice(segs, 2, 1);
    lemma_ph_bytes_shape(
        spec_seg_offset(segs, 0) as u64,
        segs[0].vaddr,
        segs[0].data.len() as u64,
        segs[0].memsz,
        segs[0].flags,
        segs[0].align,
    );
    lemma_ph_bytes_shape(
        spec_seg_offset(segs, 1) as u64,
        segs[1].vaddr,
        segs[1].data.len() as u64,
        segs[1].memsz,
        segs[1].flags,
        segs[1].align,
    );
    let table = spec_ph_table(segs, 2);
    assert(bytes.subrange(64, 68) =~= table.subrange(0, 56).subrange(0, 4));
    assert(bytes.subrange(68, 72) =~= table.subrange(0, 56).subrange(4, 8));
    assert(bytes.subrange(120, 124) =~= table.subrange(56, 112).subrange(0, 4));
    assert(bytes.subrange(124, 128) =~= table.subrange(56, 112).subrange(4, 8));
}

/// Law: compilation is deterministic. The output bytes are a function of
/// the input program and the initial driver state (hence of the symbol
/// table) alone, so compiling the same program and symbol table twice
/// produces byte-identical output.
pub proof fn lemma_run_deterministic(
    code: Seq<Item>,
    v: DriverView,
    r1: Result<Seq<u8>, BackendError>,
    r2: Result<Seq<u8>, BackendError>,
)
    requires
        r1 == spec_run(code, v),
        r2 == spec_run(code, v),
    ensures
        r1 == r2,
{
}

/// The x86-64 Linux ELF code generator.
pub struct X64LinuxElfCodegen {
    data: Vec<u8>,
    opt: Optimizer,
    st: JsonSt,
    registers: RegisterAllocator,
    main: Option<LabelId>,
    data_labels: Vec<u64>,
}

impl View for X64LinuxElfCodegen {
    type V = DriverView;

    closed spec fn view(&self) -> DriverView {
        DriverView {
            data: self.data@,
            opt: self.opt@,
            st: self.st@,
            avail: self.registers@,
            main: self.main,
            data_labels: self.data_labels@,
        }
    }
}

impl X64LinuxElfCodegen {
    /// A fresh driver over the given symbol table.
    pub fn new(st: JsonSt) -> (r: Self)
        ensures
            r@.wf(),
            r@.data == Seq::<u8>::empty(),
            r@.opt == spec_new(INIT_CODE_ADDR),
            r@.st == st@,
            r@.avail == 0xffcfu16,
            r@.main is None,
            r@.data_labels == Seq::<u64>::empty(),
    {
        let r = Self {
            data: Vec::new(),
            opt: Optimizer::new(INIT_CODE_ADDR),
            st,
            registers: RegisterAllocator::new(),
            main: None,
            data_labels: Vec::new(),
        };
        proof {
            assert(r@.data =~= Seq::<u8>::empty());
            assert(r@.data_labels =~= Seq::<u64>::empty());
        }
        r
    }

    /// Evaluate one expression into a freshly allocated register.
    pub fn gen_expression(&mut self, expr: &Expression) -> (result: Result<
        RegAllocation,
        BackendError,
    >)
        requires
            old(self)@.wf(),
        ensures
            final(self)@.wf(),
            final(self)@.st == old(self)@.st,
            match result {
                Ok(reg) => reg@ < 16 && spec_gen_expression(old(self)@, *expr) == Ok::<
                    (DriverView, u8),
                    BackendError,
                >((final(self)@, reg@)),
                Err(e) => spec_gen_expression(old(self)@, *expr) == Err::<
                    (DriverView, u8),
                    BackendError,
                >(e),
            },
    {
        match expr {
            Expression::IntConst { val } => {
                let reg = match self.registers.allocate_any() {
                    Ok(r) => r,
                    Err(e) => {
                        return Err(e);
                    },
                };
                match self.opt.accept(Instr::SetConstant(reg.reg(), Constant::Value(*val))) {
                    Ok(()) => {},
                    Err(e) => {
                        return Err(e);
                    },
                }
                Ok(reg)
            },
            Expression::StrConst { val } => {
                let mut bytes = val.as_str().as_bytes_vec();
                if bytes.len() > MAX_DATA_LEN || self.data.len() + 1 > MAX_DATA_LEN - bytes.len() {
                    return Err(BackendError::DataTooLarge);
                }
                let reg = match self.registers.allocate_any() {
                    Ok(r) => r,
                    Err(e) => {
                        return Err(e);
                    },
                };
                let addr = self.data.len() as u64;
                self.data_labels.push(addr);
                match self.opt.accept(
                    Instr::SetConstant(reg.reg(), Constant::Tbd(LabelId::DataAddr(addr))),
                ) {
                    Ok(()) => {},
                    Err(e) => {
                        return Err(e);
                    },
                }
                let ghost bs = bytes@;
                self.data.append(&mut bytes);
                self.data.push(0u8);
                proof {
                    assert(final(self)@.data =~= old(self)@.data + bs + seq![0u8]);
                }
                Ok(reg)
            },
        }
    }

    /// Record the release of a register in the instruction stream and
    /// return it to the pool.
    pub fn free(&mut self, reg: RegAllocation) -> (result: Result<(), BackendError>)
        requires
            old(self)@.wf(),
            reg@ < 16,
        ensures
            final(self)@.wf(),
            final(self)@.st == old(self)@.st,
            match result {
                Ok(()) => spec_drv_free(old(self)@, reg@) == Ok::<DriverView, BackendError>(
                    final(self)@,
                ),
                Err(e) => spec_drv_free(old(self)@, reg@) == Err::<DriverView, BackendError>(e),
            },
    {
        match self.opt.accept(Instr::FreeRegister(reg.reg())) {
            Ok(()) => {},
            Err(e) => {
                return Err(e);
            },
        }
        match self.registers.free(reg) {
            Ok(()) => Ok(()),
            Err(e) => Err(e),
        }
    }

    /// Move a held value into a specific register: allocate the target,
    /// emit the move, release the source.
    fn move_to(&mut self, from: RegAllocation, to: RegisterRequest) -> (result: Result<
        RegAllocation,
        BackendError,
    >)
        requires
            old(self)@.wf(),
            from@ < 16,
            to.0 < 16,
        ensures
            final(self)@.wf(),
            final(self)@.st == old(self)@.st,
            match result {
                Ok(dest) => dest@ == to.0 && spec_move_to(old(self)@, from@, to.0) == Ok::<
                    DriverView,
                    BackendError,
                >(final(self)@),
                Err(e) => spec_move_to(old(self)@, from@, to.0) == Err::<DriverView, BackendError>(
                    e,
                ),
            },
    {
        let dest = match self.registers.allocate(to) {
            Ok(d) => d,
            Err(e) => {
                return Err(e);
            },
        };
        match self.opt.accept(Instr::MoveRegs { dest: dest.reg(), orig: from.reg() }) {
            Ok(()) => {},
            Err(e) => {
                return Err(e);
            },
        }
        match self.free(from) {
            Ok(()) => {},
            Err(e) => {
                return Err(e);
            },
        }
        Ok(dest)
    }

    /// Emit the function prologue.
    pub fn function_enter_harness(&mut self) -> (result: Result<(), BackendError>)
        requires
            old(self)@.wf(),
        ensures
            final(self)@.wf(),
            final(self)@.st == old(self)@.st,
            match result {
                Ok(()) => spec_enter_harness(old(self)@) == Ok::<DriverView, BackendError>(
                    final(self)@,
                ),
                Err(e) => spec_enter_harness(old(self)@) == Err::<DriverView, BackendError>(e),
            },
    {
        match self.opt.accept(Instr::Push(stack_frame_pointer())) {
            Ok(()) => {},
            Err(e) => {
                return Err(e);
            },
        }
        match self.opt.accept(
            Instr::MoveRegs { dest: stack_frame_pointer(), orig: stack_pointer() },
        ) {
            Ok(()) => {},
            Err(e) => {
                return Err(e);
            },
        }
        Ok(())
    }

    /// Emit the function epilogue.
    pub fn function_exit_harness(&mut self) -> (result: Result<(), BackendError>)
        requires
            old(self)@.wf(),
        ensures
            final(self)@.wf(),
            final(self)@.st == old(self)@.st,
            match result {
                Ok(()) => spec_exit_harness(old(self)@) == Ok::<DriverView, BackendError>(
                    final(self)@,
                ),
                Err(e) => spec_exit_harness(old(self)@) == Err::<DriverView, BackendError>(e),
            },
    {
        match self.opt.accept(
            Instr::MoveRegs { dest: stack_pointer(), orig: stack_frame_pointer() },
        ) {
            Ok(()) => {},
            Err(e) => {
                return Err(e);
            },
        }
        match self.opt.accept(Instr::Pop(stack_frame_pointer())) {
            Ok(()) => {},
            Err(e) => {
                return Err(e);
            },
        }
        match self.opt.accept(Instr::Ret) {
            Ok(()) => {},
            Err(e) => {
                return Err(e);
            },
        }
        Ok(())
    }

    /// Evaluate the argument expressions of a syscall, moving each into the
    /// ABI register for its position, and return the held registers in
    /// order.
    fn gen_args(&mut self, args: &Vec<Expression>) -> (result: Result<
        Vec<RegAllocation>,
        BackendError,
    >)
        requires
            old(self)@.wf(),
            args@.len() <= MAX_SYSCALL_ARGS,
        ensures
            final(self)@.wf(),
            final(self)@.st == old(self)@.st,
            match result {
                Ok(regs) => spec_gen_syscall_args(old(self)@, args@, 0) == Ok::<
                    (DriverView, Seq<u8>),
                    BackendError,
                >((final(self)@, spec_reg_nums(regs@))) && (forall|j: int|
                    0 <= j < regs@.len() ==> #[trigger] regs@[j]@ < 16),
                Err(e) => spec_gen_syscall_args(old(self)@, args@, 0) == Err::<
                    (DriverView, Seq<u8>),
                    BackendError,
                >(e),
            },
    {
        let ghost v0 = old(self)@;
        let mut regs: Vec<RegAllocation> = Vec::new();
        let ghost mut taken: Seq<u8> = Seq::empty();
        let mut i: usize = 0;
        proof {
            assert(forall|rest: Seq<u8>| Seq::<u8>::empty() + rest =~= rest);
        }
        #[verifier::loop_isolation(false)]
        while i < args.len()
            invariant
                i <= args@.len(),
                self@.wf(),
                self@.st == old(self)@.st,
                regs@.len() == i,
                taken.len() == i,
                forall|j: int| 0 <= j < i ==> #[trigger] regs@[j]@ == taken[j],
                forall|j: int| 0 <= j < i ==> #[trigger] taken[j] < 16,
                spec_gen_syscall_args(v0, args@, 0) == (match spec_gen_syscall_args(
                    self@,
                    args@,
                    i as int,
                ) {
                    Ok((vf, rest)) => Ok::<(DriverView, Seq<u8>), BackendError>(
                        (vf, taken + rest),
                    ),
                    Err(e) => Err(e),
                }),
            decreases args@.len() - i,
        {
            let ghost pre = self@;
            let expected = arg_register(i);
            let gotten = match self.gen_expression(&args[i]) {
                Ok(g) => g,
                Err(e) => {
                    return Err(e);
                },
            };
            let gn = gotten.reg().0;
            let chosen = if gn == expected.0 {
                gotten
            } else {
                match self.move_to(gotten, expected) {
                    Ok(d) => d,
                    Err(e) => {
                        return Err(e);
                    },
                }
            };
            proof {
                assert(spec_gen_syscall_args(pre, args@, i as int) == (
                match spec_gen_syscall_args(self@, args@, i as int + 1) {
                    Ok((vf, rest)) => Ok::<(DriverView, Seq<u8>), BackendError>(
                        (vf, seq![chosen@] + rest),
                    ),
                    Err(e) => Err(e),
                }));
                let prev = taken;
                taken = taken.push(chosen@);
                let s = spec_gen_syscall_args(self@, args@, i as int + 1);
                if s is Ok {
                    let rest = s->Ok_0.1;
                    assert(prev + (seq![chosen@] + rest) =~= taken + rest);
                }
            }
            regs.push(chosen);
            i = i + 1;
        }
        proof {
            assert(taken + Seq::<u8>::empty() =~= taken);
            assert(spec_reg_nums(regs@) =~= taken);
        }
        Ok(regs)
    }

    /// Release a run of held registers, in order.
    fn free_all(&mut self, regs: Vec<RegAllocation>) -> (result: Result<(), BackendError>)
        requires
            old(self)@.wf(),
            forall|j: int| 0 <= j < regs@.len() ==> #[trigger] regs@[j]@ < 16,
        ensures
            final(self)@.wf(),
            final(self)@.st == old(self)@.st,
            match result {
                Ok(()) => spec_free_all(old(self)@, spec_reg_nums(regs@), 0) == Ok::<
                    DriverView,
                    BackendError,
                >(final(self)@),
                Err(e) => spec_free_all(old(self)@, spec_reg_nums(regs@), 0) == Err::<
                    DriverView,
                    BackendError,
                >(e),
            },
    {
        let ghost v0 = old(self)@;
        let ghost taken = spec_reg_nums(regs@);
        let mut rest = regs;
        let ghost mut k: int = 0;
        #[verifier::loop_isolation(false)]
        while rest.len() > 0
            invariant
                0 <= k <= taken.len(),
                rest@.len() + k == taken.len(),
                self@.wf(),
                self@.st == old(self)@.st,
                forall|j: int| 0 <= j < rest@.len() ==> #[trigger] rest@[j]@ == taken[k + j],
                forall|j: int| 0 <= j < taken.len() ==> #[trigger] taken[j] < 16,
                spec_free_all(v0, taken, 0) == spec_free_all(self@, taken, k),
            decreases rest@.len(),
        {
            let r = rest.remove(0);
            match self.free(r) {
                Ok(()) => {},
                Err(e) => {
                    return Err(e);
                },
            }
            proof {
                k = k + 1;
            }
        }
        Ok(())
    }

    /// Generate a syscall statement: the number into the syscall register,
    /// the arguments into their ABI registers, the trap, then release every
    /// register used.
    fn gen_syscall_stmt(&mut self, sc: &Expression, args: &Vec<Expression>) -> (result: Result<
        (),
        BackendError,
    >)
        requires
            old(self)@.wf(),
            args@.len() <= MAX_SYSCALL_ARGS,
        ensures
            final(self)@.wf(),
            final(self)@.st == old(self)@.st,
            match result {
                Ok(()) => spec_gen_syscall(old(self)@, *sc, args@) == Ok::<
                    DriverView,
                    BackendError,
                >(final(self)@),
                Err(e) => spec_gen_syscall(old(self)@, *sc, args@) == Err::<
                    DriverView,
                    BackendError,
                >(e),
            },
    {
        let reg = match self.gen_expression(sc) {
            Ok(r) => r,
            Err(e) => {
                return Err(e);
            },
        };
        let rn = reg.reg().0;
        let sreg = if rn == SYSCALL_REG_NUM {
            reg
        } else {
            match self.move_to(reg, syscall_reg()) {
                Ok(d) => d,
                Err(e) => {
                    return Err(e);
                },
            }
        };
        let regs = match self.gen_args(args) {
            Ok(rs) => rs,
            Err(e) => {
                return Err(e);
            },
        };
        match self.opt.accept(Instr::Syscall) {
            Ok(()) => {},
            Err(e) => {
                return Err(e);
            },
        }
        match self.free(sreg) {
            Ok(()) => {},
            Err(e) => {
                return Err(e);
            },
        }
        match self.free_all(regs) {
            Ok(()) => Ok(()),
            Err(e) => Err(e),
        }
    }

}

impl Codegen<JsonSt> for X64LinuxElfCodegen {
    /// The driver's state invariant.
    open spec fn inv(&self) -> bool {
        self@.wf()
    }

    /// The entry reference is in bounds for the driver's symbol table.
    open spec fn entry_ok(&self, entry: StEntryRef) -> bool {
        spec_valid_entry(self@.st, entry)
    }

    /// The statement fits the data model (at most six syscall arguments).
    open spec fn stmt_ok(&self, statement: Statement) -> bool {
        spec_stmt_wf(statement)
    }

    /// Enter a function: define its label, remember the designated entry
    /// function, emit the prologue.
    fn enter_fn(&mut self, entry: StEntryRef) -> (result: Result<(), BackendError>)
        ensures
            final(self)@.st == old(self)@.st,
            match result {
                Ok(()) => spec_enter_fn(old(self)@, entry) == Ok::<DriverView, BackendError>(
                    final(self)@,
                ),
                Err(e) => spec_enter_fn(old(self)@, entry) == Err::<DriverView, BackendError>(e),
            },
    {
        let label = LabelId::StLabel(entry);
        self.opt.label(label);
        let main_name = String::from_str("main");
        let record = self.st.get(entry);
        let is_main = record.lexeme == main_name;
        if is_main {
            self.main = Some(label);
        }
        self.function_enter_harness()
    }

    /// Leave a function. Nothing is emitted: every statement path of this IR
    /// ends a function with its return statement.
    fn exit_fn(&mut self)
        ensures
            *final(self) == *old(self),
    {
    }

    /// Generate one statement.
    fn gen_statement(&mut self, statement: &Statement) -> (result: Result<(), BackendError>)
        ensures
            final(self)@.st == old(self)@.st,
            match result {
                Ok(()) => spec_gen_statement(old(self)@, *statement) == Ok::<
                    DriverView,
                    BackendError,
                >(final(self)@),
                Err(e) => spec_gen_statement(old(self)@, *statement) == Err::<
                    DriverView,
                    BackendError,
                >(e),
            },
    {
        match statement {
            Statement::Syscall { syscall: sc, args } => self.gen_syscall_stmt(sc, args),
            Statement::Return { inner } => {
                match inner {
                    Some(e) => {
                        let reg = match self.gen_expression(e) {
                            Ok(r) => r,
                            Err(er) => {
                                return Err(er);
                            },
                        };
                        let rn = reg.reg().0;
                        if rn != RETURN_REG_NUM {
                            match self.move_to(reg, return_reg()) {
                                Ok(_held) => {},
                                Err(er) => {
                                    return Err(er);
                                },
                            }
                        }
                    },
                    None => {},
                }
                self.function_exit_harness()
            },
        }
    }

    /// Finish the run and assemble the executable image.
    fn finish(self) -> (result: Result<Vec<u8>, BackendError>)
        ensures
            match result {
                Ok(bytes) => spec_finish(self@) == Ok::<Seq<u8>, BackendError>(bytes@),
                Err(e) => spec_finish(self@) == Err::<Seq<u8>, BackendError>(e),
            },
    {
        let ghost v0 = self@;
        let mut this = self;
        let main_lbl = match this.main {
            None => {
                return Err(BackendError::MissingEntryFunction);
            },
            Some(m) => m,
        };
        let start = LabelId::CustomLabel(0);
        this.opt.label(start);
        match this.opt.accept(Instr::Call(main_lbl)) {
            Ok(()) => {},
            Err(e) => {
                return Err(e);
            },
        }
        let _arg = match this.registers.allocate(arg_register(0)) {
            Ok(a) => a,
            Err(e) => {
                return Err(e);
            },
        };
        match this.opt.accept(Instr::MoveRegs { dest: _arg.reg(), orig: Register(0) }) {
            Ok(()) => {},
            Err(e) => {
                return Err(e);
            },
        }
        match this.opt.accept(Instr::SetConstant(Register(0), Constant::Value(EXIT_SYSCALL))) {
            Ok(()) => {},
            Err(e) => {
                return Err(e);
            },
        }
        match this.opt.accept(Instr::Syscall) {
            Ok(()) => {},
            Err(e) => {
                return Err(e);
            },
        }
        let ghost o5 = this.opt@;
        let ghost v5 = DriverView { opt: o5, ..(DriverView { opt: spec_label(v0.opt, start), ..v0 }) };
        let init_addr = this.opt.get_init_addr();
        let code_len = this.opt.get_code_len();
        let mut data_dir: u64 = init_addr + code_len as u64;
        if data_dir % PAGE_SIZE != 0 {
            data_dir = data_dir + PAGE_SIZE - data_dir % PAGE_SIZE;
        }
        proof {
            assert(data_dir == spec_data_dir(v5) as u64);
        }
        let ghost dls = this.data_labels@;
        let mut idx: usize = 0;
        #[verifier::loop_isolation(false)]
        while idx < this.data_labels.len()
            invariant
                idx <= dls.len(),
                this.data_labels@ == dls,
                this.opt@.wf(),
                spec_add_data_labels(o5, dls, data_dir, 0) == spec_add_data_labels(
                    this.opt@,
                    dls,
                    data_dir,
                    idx as int,
                ),
                this.opt@.init_addr == o5.init_addr,
                this.opt@.code == o5.code,
                this.opt@.relocations == o5.relocations,
                this.data@ == v0.data,
            decreases dls.len() - idx,
        {
            let lbl = this.data_labels[idx];
            this.opt.add_label(LabelId::DataAddr(lbl), lbl + data_dir);
            idx = idx + 1;
        }
        let ghost o6 = spec_add_data_labels(o5, dls, data_dir, 0);
        proof {
            assert(spec_add_data_labels(this.opt@, dls, data_dir, dls.len() as int) == this.opt@);
            assert(this.opt@ == o6);
        }
        let ep = match this.opt.get_label(&start) {
            Some(e) => e,
            None => {
                return Err(BackendError::UnresolvedLabel);
            },
        };
        let mut elf_builder = ElfFileBuilder::new();
        elf_builder.set_entrypoint(ep);
        let code = match this.opt.apply_relocs() {
            Ok(c) => c,
            Err(e) => {
                return Err(e);
            },
        };
        let ghost cbytes = code@;
        let ghost dbytes = this.data@;
        proof {
            crate::optimizer::lemma_apply_relocs_patches(o6.code, o6.labels, o6.relocations, cbytes);
            assert(init_addr == v5.opt.init_addr);
            assert(dbytes == v5.data);
        }
        elf_builder.add_code_segment(code, init_addr);
        elf_builder.add_rodata_segment(this.data, data_dir, 4);
        let ghost segs = seq![
            SegView {
                flags: PH_FLAGS_RX,
                memsz: cbytes.len() as u64,
                data: cbytes,
                vaddr: v5.opt.init_addr,
                align: 16,
            },
            SegView { flags: PH_FLAG_R, memsz: v5.data.len() as u64, data: v5.data, vaddr: data_dir, align: 4 },
        ];
        proof {
            assert(elf_builder@.segments.len() == 2);
            assert(elf_builder@.segments[0] == segs[0]);
            assert(elf_builder@.segments[1] == segs[1]);
            assert(elf_builder@.segments =~= segs);
            assert(spec_payload_len(segs, 0) == 0);
            assert(spec_payload_len(segs, 1) == segs[0].data.len());
            assert(spec_payload_len(segs, 2) == segs[0].data.len() + segs[1].data.len());
            assert(cbytes.len() <= MAX_CODE_LEN);
            assert(v5.data.len() <= MAX_DATA_LEN);
        }
        let out = elf_builder.build();
        Ok(out)
    }
}

} // verus!