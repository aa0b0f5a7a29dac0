//! Registers, the register allocator, and the abstract instruction set.
//!
//! A register is a number 0..16 naming one of the 16 general-purpose 64-bit
//! registers. The allocator keeps a 16-bit mask of the free registers (bit
//! set = free); the two reserved registers (stack pointer, frame pointer)
//! start out unavailable and never join the general pool.

use crate::error::BackendError;
use vstd::prelude::*;

pub mod syscall;

verus! {

/// A plain register number. Register 0..16 name rax, rcx, rdx, rbx, rsp,
/// rbp, rsi, rdi, r8..r15 in that order.
#[derive(Clone, Copy, PartialEq, Eq, Structural, Debug)]
pub struct Register(pub u8);

/// A request for one specific register, by number.
#[derive(Clone, Copy, PartialEq, Eq, Structural, Debug)]
pub struct RegisterRequest(pub u8);

/// Witness that one register is currently handed out. Deliberately neither
/// `Clone` nor `Copy`: the codegen driver must return each allocation to the
/// pool exactly once.
#[derive(Debug)]
pub struct RegAllocation(u8);

impl View for RegAllocation {
    type V = u8;

    closed spec fn view(&self) -> u8 {
        self.0
    }
}

impl RegAllocation {
    /// The bare register number of this allocation.
    pub fn reg(&self) -> (r: Register)
        ensures
            r.0 == self@,
    {
        Register(self.0)
    }

    /// The assembler name of the allocated register.
    pub fn repr(&self) -> (r: &'static str)
        requires
            self@ < 16,
        ensures
            r@ == spec_reg_name(self@),
    {
        reg_name(self.0)
    }
}

/// The assembler name of register number `r`.
pub open spec fn spec_reg_name(r: u8) -> Seq<char> {
    if r == 0 {
        "rax"@
    } else if r == 1 {
        "rcx"@
    } else if r == 2 {
        "rdx"@
    } else if r == 3 {
        "rbx"@
    } else if r == 4 {
        "rsp"@
    } else if r == 5 {
        "rbp"@
    } else if r == 6 {
        "rsi"@
    } else if r == 7 {
        "rdi"@
    } else if r == 8 {
        "r8"@
    } else if r == 9 {
        "r9"@
    } else if r == 10 {
        "r10"@
    } else if r == 11 {
        "r11"@
    } else if r == 12 {
        "r12"@
    } else if r == 13 {
        "r13"@
    } else if r == 14 {
        "r14"@
    } else {
        "r15"@
    }
}

/// The assembler name of register number `r`.
pub fn reg_name(r: u8) -> (s: &'static str)
    requires
        r < 16,
    ensures
        s@ == spec_reg_name(r),
{
    match r {
        0 => "rax",
        1 => "rcx",
        2 => "rdx",
        3 => "rbx",
        4 => "rsp",
        5 => "rbp",
        6 => "rsi",
        7 => "rdi",
        8 => "r8",
        9 => "r9",
        10 => "r10",
        11 => "r11",
        12 => "r12",
        13 => "r13",
        14 => "r14",
        _ => "r15",
    }
}

/// Register `r` is free in the pool mask `mask`.
pub open spec fn reg_is_free(mask: u16, r: u8) -> bool {
    r < 16 && (mask >> r) & 1u16 == 1u16
}

/// The mask after register `r` is handed out.
pub open spec fn spec_clear_reg(mask: u16, r: u8) -> u16 {
    mask & !(1u16 << r)
}

/// The mask after register `r` is returned to the pool.
pub open spec fn spec_set_reg(mask: u16, r: u8) -> u16 {
    mask | (1u16 << r)
}

/// The lowest free register at or above position `i`.
pub open spec fn spec_first_free_from(mask: u16, i: int) -> Option<u8>
    decreases 16 - i,
{
    if i < 0 || i >= 16 {
        None
    } else if reg_is_free(mask, i as u8) {
        Some(i as u8)
    } else {
        spec_first_free_from(mask, i + 1)
    }
}

/// The lowest free register of the pool, if any.
pub open spec fn spec_lowest_free(mask: u16) -> Option<u8> {
    spec_first_free_from(mask, 0)
}

/// Handing a register out removes exactly that register from the pool.
pub proof fn lemma_clear_reg(mask: u16, r: u8)
    requires
        r < 16,
    ensures
        forall|j: u8| reg_is_free(spec_clear_reg(mask, r), j) == (reg_is_free(mask, j) && j != r),
{
    assert(forall|j: u8|
        reg_is_free(mask & !(1u16 << r), j) == (reg_is_free(mask, j) && j != r)) by (bit_vector)
        requires
            r < 16,
    ;
}

/// Returning a register adds exactly that register to the pool.
pub proof fn lemma_set_reg(mask: u16, r: u8)
    requires
        r < 16,
    ensures
        forall|j: u8| reg_is_free(spec_set_reg(mask, r), j) == (reg_is_free(mask, j) || j == r),
{
    assert(forall|j: u8|
        reg_is_free(mask | (1u16 << r), j) == (reg_is_free(mask, j) || j == r)) by (bit_vector)
        requires
            r < 16,
    ;
}

/// Law: allocating a free register and then freeing it restores the pool to
/// its previous state, and the register is not free in between (so a second
/// allocation of it before the free must fail).
pub proof fn lemma_allocate_then_free_restores(mask: u16, r: u8)
    requires
        reg_is_free(mask, r),
    ensures
        spec_set_reg(spec_clear_reg(mask, r), r) == mask,
        !reg_is_free(spec_clear_reg(mask, r), r),
{
    assert((mask >> r) & 1u16 == 1u16 && r < 16 ==> (mask & !(1u16 << r)) | (1u16 << r) == mask
        && ((mask & !(1u16 << r)) >> r) & 1u16 != 1u16) by (bit_vector);
}

/// The lowest free register is free, and everything below it is not.
pub proof fn lemma_first_free_from_props(mask: u16, i: int, r: u8)
    requires
        0 <= i,
        spec_first_free_from(mask, i) == Some(r),
    ensures
        i <= r < 16,
        reg_is_free(mask, r),
        forall|j: u8| i <= j < r ==> !reg_is_free(mask, j),
    decreases 16 - i,
{
    if i < 16 && !reg_is_free(mask, i as u8) {
        lemma_first_free_from_props(mask, i + 1, r);
    }
}

/// Law: any-register allocation hands out strictly ascending registers: once
/// the lowest free register is taken, the next lowest free one is greater.
/// Over a run of allocations without intervening frees the results are
/// therefore distinct and in ascending order.
pub proof fn lemma_allocate_any_ascending(mask: u16, r1: u8, r2: u8)
    requires
        spec_lowest_free(mask) == Some(r1),
        spec_lowest_free(spec_clear_reg(mask, r1)) == Some(r2),
    ensures
        r2 > r1,
{
    lemma_first_free_from_props(mask, 0, r1);
    lemma_first_free_from_props(spec_clear_reg(mask, r1), 0, r2);
    lemma_clear_reg(mask, r1);
    if r2 < r1 {
        assert(!reg_is_free(mask, r2));
    }
}

/// What handing out the lowest free register does to the pool: the new
/// mask and the register, or exhaustion.
pub open spec fn spec_alloc_any(mask: u16) -> Result<(u16, u8), BackendError> {
    match spec_lowest_free(mask) {
        Some(r) => Ok((spec_clear_reg(mask, r), r)),
        None => Err(BackendError::RegistersExhausted),
    }
}

/// What handing out one specific register does to the pool.
pub open spec fn spec_alloc(mask: u16, r: u8) -> Result<u16, BackendError> {
    if reg_is_free(mask, r) {
        Ok(spec_clear_reg(mask, r))
    } else {
        Err(BackendError::RegisterNotAvailable)
    }
}

/// What returning a register does to the pool.
pub open spec fn spec_free_reg(mask: u16, r: u8) -> Result<u16, BackendError> {
    if reg_is_free(mask, r) {
        Err(BackendError::RegisterAlreadyFree)
    } else {
        Ok(spec_set_reg(mask, r))
    }
}

/// The pool of free registers, one bit per register (bit set = free).
pub struct RegisterAllocator {
    available: u16,
}

impl View for RegisterAllocator {
    type V = u16;

    closed spec fn view(&self) -> u16 {
        self.available
    }
}

impl RegisterAllocator {
    /// A fresh pool: every register free except the stack pointer and the
    /// frame pointer, which prologue and epilogue code address directly.
    pub fn new() -> (r: Self)
        ensures
            r@ == 0xffcf,
            forall|j: u8| reg_is_free(r@, j) == (j < 16 && j != 4 && j != 5),
    {
        proof {
            assert(forall|j: u8|
                reg_is_free(0xffcfu16, j) == (j < 16 && j != 4 && j != 5)) by (bit_vector);
        }
        Self { available: 0xffcf }
    }

    /// Return a handed-out register to the pool. Returning a register that
    /// is already free is an internal-consistency error and is reported, not
    /// ignored.
    pub fn free(&mut self, reg: RegAllocation) -> (result: Result<(), BackendError>)
        requires
            reg@ < 16,
        ensures
            match result {
                Ok(()) => !reg_is_free(old(self)@, reg@) && final(self)@ == spec_set_reg(
                    old(self)@,
                    reg@,
                ),
                Err(e) => e == BackendError::RegisterAlreadyFree && reg_is_free(old(self)@, reg@)
                    && final(self)@ == old(self)@,
            },
    {
        if (self.available >> reg.0) & 1u16 == 1u16 {
            Err(BackendError::RegisterAlreadyFree)
        } else {
            self.available = self.available | (1u16 << reg.0);
            Ok(())
        }
    }

    /// Hand out the lowest-numbered free register: deterministic and stable
    /// across runs, so identical inputs always see identical assignments.
    pub fn allocate_any(&mut self) -> (result: Result<RegAllocation, BackendError>)
        ensures
            match result {
                Ok(r) => r@ < 16 && spec_lowest_free(old(self)@) == Some(r@) && final(self)@
                    == spec_clear_reg(old(self)@, r@),
                Err(e) => e == BackendError::RegistersExhausted && spec_lowest_free(old(self)@)
                    is None && final(self)@ == old(self)@,
            },
    {
        let mut i: u8 = 0;
        while i < 16
            invariant
                i <= 16,
                self@ == old(self)@,
                spec_first_free_from(self@, 0) == spec_first_free_from(self@, i as int),
            decreases 16 - i,
        {
            if (self.available >> i) & 1u16 == 1u16 {
                self.available = self.available & !(1u16 << i);
                return Ok(RegAllocation(i));
            }
            i = i + 1;
        }
        Err(BackendError::RegistersExhausted)
    }

    /// Hand out exactly the requested register, or report that it is taken.
    pub fn allocate(&mut self, req: RegisterRequest) -> (result: Result<
        RegAllocation,
        BackendError,
    >)
        requires
            req.0 < 16,
        ensures
            match result {
                Ok(r) => reg_is_free(old(self)@, req.0) && r@ == req.0 && final(self)@
                    == spec_clear_reg(old(self)@, req.0),
                Err(e) => e == BackendError::RegisterNotAvailable && !reg_is_free(
                    old(self)@,
                    req.0,
                ) && final(self)@ == old(self)@,
            },
    {
        if (self.available >> req.0) & 1u16 == 1u16 {
            self.available = self.available & !(1u16 << req.0);
            Ok(RegAllocation(req.0))
        } else {
            Err(BackendError::RegisterNotAvailable)
        }
    }
}

/// A constant operand: either a known value or a to-be-determined label
/// whose address is patched in once every label is resolved.
#[derive(Debug)]
pub enum Constant<Lbl> {
    Value(u64),
    Tbd(Lbl),
}

/// One abstract instruction of the emission stream.
#[derive(Debug)]
pub enum Instr<Lbl> {
    SetConstant(Register, Constant<Lbl>),
    MoveRegs { dest: Register, orig: Register },
    Push(Register),
    Pop(Register),
    FreeRegister(Register),
    Syscall,
    Ret,
    Call(Lbl),
}

} // verus!
