//! The error taxonomy of the backend.
//!
//! Compilation is a deterministic, single-shot transformation: any failure
//! aborts the run and reports which stage gave up. Register-pool failures
//! and unresolved relocations are internal-consistency conditions that a
//! well-formed run never reaches; the buffer limits keep every address
//! computation inside `u64`.

use vstd::prelude::*;

verus! {

/// Everything that can stop a compilation.
#[derive(Clone, Copy, PartialEq, Eq, Structural, Debug)]
pub enum BackendError {
    /// A specific register was requested while it was already handed out.
    RegisterNotAvailable,
    /// Any-register allocation found the whole pool handed out.
    RegistersExhausted,
    /// A register was returned to the pool twice.
    RegisterAlreadyFree,
    /// The machine-code buffer outgrew its fixed limit.
    CodeTooLarge,
    /// The read-only data buffer outgrew its fixed limit.
    DataTooLarge,
    /// A label referenced through a deferred constant was never defined.
    UnresolvedLabel,
    /// No function carried the designated program-entry name.
    MissingEntryFunction,
}

} // verus!
