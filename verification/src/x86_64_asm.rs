//! Byte-exact x86-64 instruction encodings.
//!
//! Each function is pure and stateless: it maps one operation and its
//! operands to raw bytes, appended to a growing code buffer, with no
//! branching on program state. Encoding is total for all valid
//! register indices 0..16 and all 64-bit immediates; the spec functions give
//! the emitted bytes exactly, so callers can reason about byte offsets
//! (notably: the 8-byte immediate of a load-immediate starts 2 bytes into
//! its encoding, which the relocation machinery depends on).

use crate::ir::Register;
use vstd::bytes::*;
use vstd::prelude::*;

verus! {

/// The REX.W bit: 64-bit operand size.
pub const REX_W: u8 = 0x08;

/// The REX.R bit: extension of the ModRM reg field.
pub const REX_R: u8 = 0x04;

/// The REX.X bit: extension of the SIB index field.
pub const REX_X: u8 = 0x02;

/// The REX.B bit: extension of the ModRM r/m field.
pub const REX_B: u8 = 0x01;

/// A REX prefix under construction: the four extension bits.
#[derive(Clone, Copy, PartialEq, Eq, Structural, Debug)]
pub struct Rex {
    pub bits: u8,
}

impl Rex {
    /// The finished prefix byte: the fixed 0100 pattern over the bits.
    pub fn as_rex(&self) -> (b: u8)
        ensures
            b == 0x40u8 | self.bits,
    {
        0x40u8 | self.bits
    }
}

/// The four REX extension bits with the given W, R, X and B flags set.
pub open spec fn spec_rex_bits(w: bool, r: bool, x: bool, b: bool) -> u8 {
    (if w {
        0x08u8
    } else {
        0u8
    }) | (if r {
        0x04u8
    } else {
        0u8
    }) | (if x {
        0x02u8
    } else {
        0u8
    }) | (if b {
        0x01u8
    } else {
        0u8
    })
}

/// The four REX extension bits with the given W, R, X and B flags set.
pub fn rex_bits(w: bool, r: bool, x: bool, b: bool) -> (bits: u8)
    ensures
        bits == spec_rex_bits(w, r, x, b),
{
    (if w {
        0x08u8
    } else {
        0u8
    }) | (if r {
        0x04u8
    } else {
        0u8
    }) | (if x {
        0x02u8
    } else {
        0u8
    }) | (if b {
        0x01u8
    } else {
        0u8
    })
}

/// The REX prefix byte with the given W, R, X and B bits.
pub open spec fn spec_rex_byte(w: bool, r: bool, x: bool, b: bool) -> u8 {
    0x40u8 | spec_rex_bits(w, r, x, b)
}

/// A register-direct ModRM byte: mode 11, `reg` in the middle field, `rm`
/// in the low field.
pub open spec fn spec_modrm_reg(reg: u8, rm: u8) -> u8 {
    0xc0u8 | ((reg & 7) << 3u8) | (rm & 7)
}

/// The encoding of `MOV r/m64, r64` (register to register):
/// REX.W [+R if dest is extended] [+B if orig is extended], opcode 0x89,
/// ModRM 11 orig dest.
pub open spec fn spec_mov_regs(dest: u8, orig: u8) -> Seq<u8> {
    seq![spec_rex_byte(true, dest >= 8, false, orig >= 8), 0x89u8, spec_modrm_reg(orig, dest)]
}

/// The encoding of `MOV r64, imm64`: REX.W [+R if dest is extended],
/// opcode 0xB8 plus the low register bits, then the 8-byte little-endian
/// immediate. The immediate occupies bytes 2..10 of the 10-byte encoding.
pub open spec fn spec_mov_const(dest: u8, imm: u64) -> Seq<u8> {
    seq![spec_rex_byte(true, dest >= 8, false, false), 0xb8u8 | (dest & 7)]
        + spec_u64_to_le_bytes(imm)
}

/// The fixed two-byte encoding of `SYSCALL`.
pub open spec fn spec_syscall() -> Seq<u8> {
    seq![0x0fu8, 0x05u8]
}

/// The encoding of `PUSH r64`: opcode 0x50 plus the low register bits,
/// preceded by REX.B for an extended register.
pub open spec fn spec_push(reg: u8) -> Seq<u8> {
    if reg >= 8 {
        seq![0x41u8, 0x50u8 | (reg & 7)]
    } else {
        seq![0x50u8 | (reg & 7)]
    }
}

/// The encoding of `POP r64`: opcode 0x58 plus the low register bits,
/// preceded by REX.B for an extended register.
pub open spec fn spec_pop(reg: u8) -> Seq<u8> {
    if reg >= 8 {
        seq![0x41u8, 0x58u8 | (reg & 7)]
    } else {
        seq![0x58u8 | (reg & 7)]
    }
}

/// The fixed one-byte encoding of a near `RET`.
pub open spec fn spec_ret() -> Seq<u8> {
    seq![0xc3u8]
}

/// The encoding of `CALL r64` (indirect through a register): opcode 0xFF
/// with ModRM 11 010 reg, preceded by REX.B for an extended register.
pub open spec fn spec_call_reg(reg: u8) -> Seq<u8> {
    if reg >= 8 {
        seq![0x41u8, 0xffu8, 0xd0u8 | (reg & 7)]
    } else {
        seq![0xffu8, 0xd0u8 | (reg & 7)]
    }
}

/// A load-immediate encoding is always 10 bytes, with the immediate in its
/// tail.
pub proof fn lemma_mov_const_shape(dest: u8, imm: u64)
    ensures
        spec_mov_const(dest, imm).len() == 10,
        spec_mov_const(dest, imm).subrange(2, 10) == spec_u64_to_le_bytes(imm),
{
    lemma_auto_spec_u64_to_from_le_bytes();
    assert(spec_mov_const(dest, imm).subrange(2, 10) =~= spec_u64_to_le_bytes(imm));
}

/// Append the encoding of `MOV r/m64, r64` (move `orig` into `dest`).
pub fn mov_regs(dest: Register, orig: Register, buf: &mut Vec<u8>)
    requires
        dest.0 < 16,
        orig.0 < 16,
    ensures
        final(buf)@ == old(buf)@ + spec_mov_regs(dest.0, orig.0),
{
    let rex = Rex { bits: rex_bits(true, dest.0 >= 8, false, orig.0 >= 8) };
    let mod_rm: u8 = 0xc0u8 | ((orig.0 & 7) << 3u8) | (dest.0 & 7);
    buf.push(rex.as_rex());
    buf.push(0x89u8);
    buf.push(mod_rm);
    assert(buf@ =~= old(buf)@ + spec_mov_regs(dest.0, orig.0));
}

/// Append the encoding of `MOV r64, imm64` (load `imm` into `dest`).
pub fn mov_const(dest: Register, imm: u64, buf: &mut Vec<u8>)
    requires
        dest.0 < 16,
    ensures
        final(buf)@ == old(buf)@ + spec_mov_const(dest.0, imm),
{
    let rex = Rex { bits: rex_bits(true, dest.0 >= 8, false, false) };
    let opcode: u8 = 0xb8u8 | (dest.0 & 7);
    buf.push(rex.as_rex());
    buf.push(opcode);
    let mut tail = u64_to_le_bytes(imm);
    buf.append(&mut tail);
    assert(buf@ =~= old(buf)@ + spec_mov_const(dest.0, imm));
}

/// Append the encoding of `SYSCALL`.
pub fn syscall(buf: &mut Vec<u8>)
    ensures
        final(buf)@ == old(buf)@ + spec_syscall(),
{
    buf.push(0x0fu8);
    buf.push(0x05u8);
    assert(buf@ =~= old(buf)@ + spec_syscall());
}

/// Append the encoding of `PUSH r64`.
pub fn push_reg(reg: Register, buf: &mut Vec<u8>)
    requires
        reg.0 < 16,
    ensures
        final(buf)@ == old(buf)@ + spec_push(reg.0),
{
    if reg.0 >= 8 {
        buf.push(0x41u8);
    }
    buf.push(0x50u8 | (reg.0 & 7));
    assert(buf@ =~= old(buf)@ + spec_push(reg.0));
}

/// Append the encoding of `POP r64`.
pub fn pop_reg(reg: Register, buf: &mut Vec<u8>)
    requires
        reg.0 < 16,
    ensures
        final(buf)@ == old(buf)@ + spec_pop(reg.0),
{
    if reg.0 >= 8 {
        buf.push(0x41u8);
    }
    buf.push(0x58u8 | (reg.0 & 7));
    assert(buf@ =~= old(buf)@ + spec_pop(reg.0));
}

/// Append the encoding of a near `RET`.
pub fn ret(buf: &mut Vec<u8>)
    ensures
        final(buf)@ == old(buf)@ + spec_ret(),
{
    buf.push(0xc3u8);
    assert(buf@ =~= old(buf)@ + spec_ret());
}

/// Append the encoding of `CALL r64` (indirect through `reg`).
pub fn call_reg(reg: Register, buf: &mut Vec<u8>)
    requires
        reg.0 < 16,
    ensures
        final(buf)@ == old(buf)@ + spec_call_reg(reg.0),
{
    if reg.0 >= 8 {
        buf.push(0x41u8);
    }
    buf.push(0xffu8);
    buf.push(0xd0u8 | (reg.0 & 7));
    assert(buf@ =~= old(buf)@ + spec_call_reg(reg.0));
}

/// Read a load-immediate encoding back: the destination register and the
/// immediate, or nothing if the bytes are not a `MOV r64, imm64`.
pub open spec fn spec_decode_mov_const(s: Seq<u8>) -> Option<(u8, u64)> {
    if s.len() == 10 && (s[0] == 0x48 || s[0] == 0x4c) && (s[1] & 0xf8u8) == 0xb8 {
        let hi: u8 = if s[0] == 0x4c {
            8
        } else {
            0
        };
        Some((((s[1] & 0x07u8) | hi), spec_u64_from_le_bytes(s.subrange(2, 10))))
    } else {
        None
    }
}

/// Decode a load-immediate encoding.
pub fn decode_mov_const(buf: &Vec<u8>) -> (result: Option<(Register, u64)>)
    ensures
        match result {
            Some((r, imm)) => spec_decode_mov_const(buf@) == Some((r.0, imm)),
            None => spec_decode_mov_const(buf@) is None,
        },
{
    if buf.len() != 10 {
        return None;
    }
    let rex = buf[0];
    let opcode = buf[1];
    if !(rex == 0x48 || rex == 0x4c) || (opcode & 0xf8u8) != 0xb8 {
        return None;
    }
    let hi: u8 = if rex == 0x4c {
        8
    } else {
        0
    };
    let mut tail: Vec<u8> = Vec::new();
    let mut j: usize = 2;
    while j < 10
        invariant
            2 <= j <= 10,
            buf@.len() == 10,
            tail@ == buf@.subrange(2, j as int),
        decreases 10 - j,
    {
        tail.push(buf[j]);
        assert(tail@ =~= buf@.subrange(2, j as int + 1));
        j = j + 1;
    }
    let imm = u64_from_le_bytes(tail.as_slice());
    Some((Register((opcode & 0x07u8) | hi), imm))
}

/// Law: decoding the bytes produced by encoding `MOV dest, imm` yields the
/// same register and immediate again, for every register and immediate.
pub proof fn lemma_mov_const_round_trip(dest: u8, imm: u64)
    requires
        dest < 16,
    ensures
        spec_decode_mov_const(spec_mov_const(dest, imm)) == Some((dest, imm)),
{
    lemma_auto_spec_u64_to_from_le_bytes();
    lemma_mov_const_shape(dest, imm);
    let s = spec_mov_const(dest, imm);
    assert(spec_rex_byte(true, dest >= 8, false, false) == if dest >= 8 {
        0x4cu8
    } else {
        0x48u8
    }) by (bit_vector);
    assert((0xb8u8 | (dest & 7)) & 0xf8u8 == 0xb8u8) by (bit_vector);
    assert(dest < 16 ==> ((0xb8u8 | (dest & 7)) & 0x07u8) | (if dest >= 8 {
        8u8
    } else {
        0u8
    }) == dest) by (bit_vector);
}

} // verus!
