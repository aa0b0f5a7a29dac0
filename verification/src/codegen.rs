//! The generic code-generation interface.
//!
//! A code generator walks the IR one function at a time: enter the
//! function, generate each of its statements, leave it, and finally finish
//! the whole run, handing back the bytes of the executable image. The
//! backend for 64-bit Linux implements this interface in
//! [`crate::ir_gen::X64LinuxElfCodegen`]; calls resolved to that
//! implementation carry its full contracts.

use crate::data::St;
use crate::error::BackendError;
use crate::program::Statement;
use vstd::prelude::*;

verus! {

/// One backend over a symbol table `S`.
pub trait Codegen<S: St> {
    /// The invariant the generator's state keeps between calls.
    spec fn inv(&self) -> bool;

    /// The entry identifier names a record of the generator's symbol table.
    spec fn entry_ok(&self, entry: S::StEntryId) -> bool;

    /// The statement satisfies the data model the generator assumes.
    spec fn stmt_ok(&self, statement: Statement) -> bool;

    /// Begin a function item.
    fn enter_fn(&mut self, entry: S::StEntryId) -> (result: Result<(), BackendError>)
        requires
            old(self).inv(),
            old(self).entry_ok(entry),
        ensures
            final(self).inv(),
    ;

    /// Leave the current function item.
    fn exit_fn(&mut self)
        requires
            old(self).inv(),
        ensures
            final(self).inv(),
    ;

    /// Generate one statement of the current function's body.
    fn gen_statement(&mut self, statement: &Statement) -> (result: Result<(), BackendError>)
        requires
            old(self).inv(),
            old(self).stmt_ok(*statement),
        ensures
            final(self).inv(),
    ;

    /// Finish the run: hand back the executable image, or the error that
    /// stopped the compilation.
    fn finish(self) -> (result: Result<Vec<u8>, BackendError>)
        requires
            self.inv(),
    ;
}

} // verus!
