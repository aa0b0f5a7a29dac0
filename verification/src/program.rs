//! The input intermediate representation.
//!
//! A program is an ordered sequence of function items; a function body is an
//! ordered sequence of statements over integer- and string-constant
//! expressions. The IR arrives fully type-resolved from an external front
//! end; the backend walks it exactly once.

use crate::codegen::Codegen;
use crate::data::{St, StEntry};
use crate::error::BackendError;
use crate::ir_gen::{spec_code_wf, spec_gen_body, spec_gen_item, spec_run, spec_run_items,
    X64LinuxElfCodegen};
use vstd::prelude::*;

verus! {

/// Reference to one symbol-table entry: which scope, and which entry in it.
#[derive(Clone, Copy, PartialEq, Eq, Structural, Debug, Hash)]
pub struct StEntryRef {
    pub st_idx: usize,
    pub idx: usize,
}

/// The symbol table the backend is handed: a list of scopes, each a list of
/// entries.
pub type JsonSt = Vec<Vec<StEntry>>;

impl St for JsonSt {
    type StEntryId = StEntryRef;

    open spec fn valid_id(&self, idx: StEntryRef) -> bool {
        idx.st_idx < self@.len() && idx.idx < self@[idx.st_idx as int]@.len()
    }

    open spec fn spec_get(&self, idx: StEntryRef) -> StEntry {
        self@[idx.st_idx as int]@[idx.idx as int]
    }

    fn get(&self, idx: StEntryRef) -> (r: &StEntry) {
        &self[idx.st_idx][idx.idx]
    }
}

/// A whole input program.
pub type Code = Vec<Item>;

/// One top-level item of the IR.
#[derive(Debug)]
pub enum Item {
    Function { entry: StEntryRef, body: Body },
}

/// One function body.
pub type Body = Vec<Statement>;

/// One statement of the IR.
#[derive(Debug)]
pub enum Statement {
    Syscall { syscall: Expression, args: Vec<Expression> },
    Return { inner: Option<Expression> },
}

/// One expression of the IR.
#[derive(Debug)]
pub enum Expression {
    IntConst { val: u64 },
    StrConst { val: String },
}

/// Compile a whole program: walk every function with the given code
/// generator, then finish the run and hand back the bytes of the
/// executable image, or the error that stopped the compilation.
pub fn run(code: Code, codegen: X64LinuxElfCodegen) -> (result: Result<Vec<u8>, BackendError>)
    requires
        codegen@.wf(),
        spec_code_wf(codegen@.st, code@),
    ensures
        match result {
            Ok(bytes) => spec_run(code@, codegen@) == Ok::<Seq<u8>, BackendError>(bytes@),
            Err(e) => spec_run(code@, codegen@) == Err::<Seq<u8>, BackendError>(e),
        },
{
    let ghost v0 = codegen@;
    let mut cg = codegen;
    let mut i: usize = 0;
    #[verifier::loop_isolation(false)]
    while i < code.len()
        invariant
            i <= code@.len(),
            cg@.wf(),
            cg@.st == v0.st,
            spec_run_items(v0, code@, 0) == spec_run_items(cg@, code@, i as int),
        decreases code@.len() - i,
    {
        let ghost pre = cg@;
        match &code[i] {
            Item::Function { entry, body } => {
                match cg.enter_fn(*entry) {
                    Ok(()) => {},
                    Err(e) => {
                        return Err(e);
                    },
                }
                let ghost v1 = cg@;
                let mut j: usize = 0;
                #[verifier::loop_isolation(false)]
                while j < body.len()
                    invariant
                        j <= body@.len(),
                        cg@.wf(),
                        cg@.st == v0.st,
                        spec_gen_body(v1, body@, 0) == spec_gen_body(cg@, body@, j as int),
                    decreases body@.len() - j,
                {
                    match cg.gen_statement(&body[j]) {
                        Ok(()) => {},
                        Err(e) => {
                            return Err(e);
                        },
                    }
                    j = j + 1;
                }
                cg.exit_fn();
                proof {
                    assert(spec_gen_item(pre, code@[i as int]) == Ok::<_, BackendError>(cg@));
                }
            },
        }
        i = i + 1;
    }
    cg.finish()
}

} // verus!
