use elfgen::error::BackendError;
use elfgen::ir::{Constant, Instr, Register};
use elfgen::optimizer::{LabelId, Optimizer};

fn le64(x: u64) -> Vec<u8> {
    let mut out = Vec::new();
    for i in 0..8 {
        out.push(((x >> (8 * i)) & 0xff) as u8);
    }
    out
}

#[test]
fn forward_reference_is_patched_with_the_later_address() {
    let mut opt = Optimizer::new(0x1000);
    opt.accept(Instr::SetConstant(
        Register(0),
        Constant::Tbd(LabelId::CustomLabel(7)),
    ))
    .unwrap();
    assert_eq!(opt.get_code_len(), 10);
    // The label is declared only after the reference: 0x1000 + 10.
    opt.label(LabelId::CustomLabel(7));
    assert_eq!(opt.get_label(&LabelId::CustomLabel(7)), Some(0x100a));
    let code = opt.apply_relocs().unwrap();
    assert_eq!(code.len(), 10);
    // The placeholder immediate (bytes 2..10) now holds the address.
    assert_eq!(&code[2..10], le64(0x100a).as_slice());
    assert_eq!(code[0], 0x48);
    assert_eq!(code[1], 0xb8);
}

#[test]
fn backward_reference_is_patched_with_the_earlier_address() {
    let mut opt = Optimizer::new(0x2000);
    opt.label(LabelId::CustomLabel(1));
    opt.accept(Instr::Syscall).unwrap();
    opt.accept(Instr::SetConstant(
        Register(3),
        Constant::Tbd(LabelId::CustomLabel(1)),
    ))
    .unwrap();
    let code = opt.apply_relocs().unwrap();
    // The trap is 2 bytes, so the immediate sits at 2 + 2.
    assert_eq!(&code[4..12], le64(0x2000).as_slice());
}

#[test]
fn one_label_patches_every_site_that_references_it() {
    let mut opt = Optimizer::new(0);
    opt.accept(Instr::SetConstant(
        Register(0),
        Constant::Tbd(LabelId::DataAddr(5)),
    ))
    .unwrap();
    opt.accept(Instr::SetConstant(
        Register(1),
        Constant::Tbd(LabelId::DataAddr(5)),
    ))
    .unwrap();
    opt.add_label(LabelId::DataAddr(5), 0xdead_beef);
    let code = opt.apply_relocs().unwrap();
    assert_eq!(&code[2..10], le64(0xdead_beef).as_slice());
    assert_eq!(&code[12..20], le64(0xdead_beef).as_slice());
}

#[test]
fn an_undefined_label_is_reported_not_silently_zeroed() {
    let mut opt = Optimizer::new(0);
    opt.accept(Instr::SetConstant(
        Register(0),
        Constant::Tbd(LabelId::CustomLabel(9)),
    ))
    .unwrap();
    assert_eq!(opt.apply_relocs().unwrap_err(), BackendError::UnresolvedLabel);
}

#[test]
fn known_constants_need_no_relocation() {
    let mut opt = Optimizer::new(0);
    opt.accept(Instr::SetConstant(Register(2), Constant::Value(0x42)))
        .unwrap();
    let code = opt.apply_relocs().unwrap();
    assert_eq!(&code[2..10], le64(0x42).as_slice());
}

#[test]
fn call_loads_the_target_address_and_calls_through_rax() {
    let mut opt = Optimizer::new(0x10000);
    opt.label(LabelId::CustomLabel(0));
    opt.accept(Instr::Call(LabelId::CustomLabel(0))).unwrap();
    let code = opt.apply_relocs().unwrap();
    assert_eq!(code.len(), 12);
    assert_eq!(code[0], 0x48);
    assert_eq!(code[1], 0xb8);
    assert_eq!(&code[2..10], le64(0x10000).as_slice());
    assert_eq!(&code[10..12], [0xff, 0xd0]);
}

#[test]
fn redeclaring_a_label_keeps_the_later_definition() {
    let mut opt = Optimizer::new(0x100);
    opt.label(LabelId::CustomLabel(3));
    opt.accept(Instr::Ret).unwrap();
    opt.label(LabelId::CustomLabel(3));
    assert_eq!(opt.get_label(&LabelId::CustomLabel(3)), Some(0x101));
    assert_eq!(opt.get_label(&LabelId::CustomLabel(4)), None);
}

#[test]
fn the_code_buffer_has_a_hard_limit() {
    let mut opt = Optimizer::new(0);
    // Fill the buffer with 10-byte load-immediates until the fixed limit
    // (128 MiB) leaves no room for one more instruction.
    let room = 0x0800_0000usize - 16;
    let fills = room / 10 + 1;
    for _ in 0..fills {
        opt.accept(Instr::SetConstant(Register(0), Constant::Value(0)))
            .unwrap();
    }
    assert!(opt.get_code_len() + 16 > 0x0800_0000);
    assert_eq!(
        opt.accept(Instr::Ret).unwrap_err(),
        BackendError::CodeTooLarge
    );
}

#[test]
fn accessors_report_base_address_and_code_length() {
    let mut opt = Optimizer::new(0x10000);
    assert_eq!(opt.get_init_addr(), 0x10000);
    assert_eq!(opt.get_code_len(), 0);
    opt.accept(Instr::Push(Register(5))).unwrap();
    opt.accept(Instr::MoveRegs { dest: Register(5), orig: Register(4) })
        .unwrap();
    assert_eq!(opt.get_code_len(), 4);
    // Releasing a register emits nothing.
    opt.accept(Instr::FreeRegister(Register(3))).unwrap();
    assert_eq!(opt.get_code_len(), 4);
    opt.accept(Instr::Pop(Register(5))).unwrap();
    opt.accept(Instr::Ret).unwrap();
    assert_eq!(opt.get_code_len(), 6);
}
