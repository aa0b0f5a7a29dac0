//! The Linux x86-64 syscall calling convention.
//!
//! Register numbering: rax, rcx, rdx, rbx, rsp, rbp, rsi, rdi, r8..r15.
//! The kernel expects the syscall number in rax and up to six arguments in
//! rdi, rsi, rdx, r10, r8, r9, in that order. This assignment is a hard
//! external contract and is distinct from the user-level C convention.

use super::{Register, RegisterRequest};
use vstd::prelude::*;

verus! {

/// How many arguments a syscall can carry.
pub const MAX_SYSCALL_ARGS: usize = 6;

/// The register that carries the `i`-th syscall argument:
/// rdi, rsi, rdx, r10, r8, r9.
pub open spec fn spec_arg_register(i: int) -> u8 {
    if i == 0 {
        7
    } else if i == 1 {
        6
    } else if i == 2 {
        2
    } else if i == 3 {
        10
    } else if i == 4 {
        8
    } else {
        9
    }
}

/// The register that carries the `i`-th syscall argument.
pub fn arg_register(i: usize) -> (r: RegisterRequest)
    requires
        i < MAX_SYSCALL_ARGS,
    ensures
        r.0 == spec_arg_register(i as int),
        r.0 < 16,
{
    match i {
        0 => RegisterRequest(7),
        1 => RegisterRequest(6),
        2 => RegisterRequest(2),
        3 => RegisterRequest(10),
        4 => RegisterRequest(8),
        _ => RegisterRequest(9),
    }
}

/// The number of the register that carries the syscall number (rax).
pub const SYSCALL_REG_NUM: u8 = 0;

/// The register that carries the syscall number.
pub fn syscall_reg() -> (r: RegisterRequest)
    ensures
        r.0 == SYSCALL_REG_NUM,
{
    RegisterRequest(SYSCALL_REG_NUM)
}

/// The number of the register that carries a function's return value (rax).
pub const RETURN_REG_NUM: u8 = 0;

/// The register that carries a function's return value.
pub fn return_reg() -> (r: RegisterRequest)
    ensures
        r.0 == RETURN_REG_NUM,
{
    RegisterRequest(RETURN_REG_NUM)
}

/// The number of the frame-pointer register (rbp), reserved for prologue
/// and epilogue code.
pub const STACK_FRAME_POINTER_NUM: u8 = 5;

/// The frame-pointer register (rbp).
pub fn stack_frame_pointer() -> (r: Register)
    ensures
        r.0 == STACK_FRAME_POINTER_NUM,
{
    Register(STACK_FRAME_POINTER_NUM)
}

/// The number of the stack-pointer register (rsp), reserved likewise.
pub const STACK_POINTER_NUM: u8 = 4;

/// The stack-pointer register (rsp).
pub fn stack_pointer() -> (r: Register)
    ensures
        r.0 == STACK_POINTER_NUM,
{
    Register(STACK_POINTER_NUM)
}

} // verus!
