use elfgen::ir::Register;
use elfgen::x86_64_asm::{
    call_reg, decode_mov_const, mov_const, mov_regs, pop_reg, push_reg, ret, syscall, Rex, REX_W,
};

#[test]
fn mov_const_round_trips_for_all_registers_and_boundary_immediates() {
    for r in 0u8..16 {
        for imm in [0u64, u64::MAX, 1, 0x1234_5678_9abc_def0] {
            let mut buf: Vec<u8> = Vec::new();
            mov_const(Register(r), imm, &mut buf);
            assert_eq!(buf.len(), 10);
            let (reg, val) = decode_mov_const(&buf).unwrap();
            assert_eq!(reg.0, r);
            assert_eq!(val, imm);
        }
    }
}

#[test]
fn mov_const_emits_rex_opcode_and_little_endian_immediate() {
    let mut buf: Vec<u8> = Vec::new();
    mov_const(Register(0), 1, &mut buf);
    assert_eq!(buf, vec![0x48, 0xb8, 1, 0, 0, 0, 0, 0, 0, 0]);

    // A register needing the extension bit (reg >= 8).
    let mut buf: Vec<u8> = Vec::new();
    mov_const(Register(10), 0x0102_0304_0506_0708, &mut buf);
    assert_eq!(
        buf,
        vec![0x4c, 0xba, 0x08, 0x07, 0x06, 0x05, 0x04, 0x03, 0x02, 0x01]
    );
}

#[test]
fn decode_mov_const_rejects_other_bytes() {
    assert!(decode_mov_const(&vec![0x0f, 0x05]).is_none());
    assert!(decode_mov_const(&vec![0x48, 0x89, 0xe5, 0, 0, 0, 0, 0, 0, 0]).is_none());
    assert!(decode_mov_const(&vec![0x48, 0xb8, 1, 0, 0, 0, 0, 0, 0]).is_none());
}

#[test]
fn mov_regs_encodes_rex_opcode_modrm() {
    // mov rbp, rsp: the prologue move.
    let mut buf: Vec<u8> = Vec::new();
    mov_regs(Register(5), Register(4), &mut buf);
    assert_eq!(buf, vec![0x48, 0x89, 0xe5]);

    // mov rdi, rcx: an argument shuffle.
    let mut buf: Vec<u8> = Vec::new();
    mov_regs(Register(7), Register(1), &mut buf);
    assert_eq!(buf, vec![0x48, 0x89, 0xcf]);

    // An extended destination register.
    let mut buf: Vec<u8> = Vec::new();
    mov_regs(Register(8), Register(0), &mut buf);
    assert_eq!(buf, vec![0x4c, 0x89, 0xc0]);
}

#[test]
fn syscall_is_the_fixed_two_byte_trap() {
    let mut buf: Vec<u8> = Vec::new();
    syscall(&mut buf);
    assert_eq!(buf, vec![0x0f, 0x05]);
}

#[test]
fn push_pop_ret_and_indirect_call_encodings() {
    let mut buf: Vec<u8> = Vec::new();
    push_reg(Register(5), &mut buf);
    assert_eq!(buf, vec![0x55]);

    let mut buf: Vec<u8> = Vec::new();
    push_reg(Register(8), &mut buf);
    assert_eq!(buf, vec![0x41, 0x50]);

    let mut buf: Vec<u8> = Vec::new();
    pop_reg(Register(5), &mut buf);
    assert_eq!(buf, vec![0x5d]);

    let mut buf: Vec<u8> = Vec::new();
    ret(&mut buf);
    assert_eq!(buf, vec![0xc3]);

    let mut buf: Vec<u8> = Vec::new();
    call_reg(Register(0), &mut buf);
    assert_eq!(buf, vec![0xff, 0xd0]);

    let mut buf: Vec<u8> = Vec::new();
    call_reg(Register(10), &mut buf);
    assert_eq!(buf, vec![0x41, 0xff, 0xd2]);
}

#[test]
fn rex_prefix_carries_its_bits() {
    let rex = Rex { bits: REX_W };
    assert_eq!(rex.as_rex(), 0x48);
    let plain = Rex { bits: 0 };
    assert_eq!(plain.as_rex(), 0x40);
}
