//! Symbol-table records.
//!
//! The symbol table is owned by an external collaborator; the backend only
//! reads it. An entry resolves to a lexeme and a kind; the only kind the
//! backend meets is a function entry.

use vstd::prelude::*;

verus! {

/// Read-only lookup from an entry identifier to a symbol record.
pub trait St {
    type StEntryId: Clone + Copy;

    /// The identifier names an entry the table actually holds.
    spec fn valid_id(&self, idx: Self::StEntryId) -> bool;

    /// The record the identifier resolves to.
    spec fn spec_get(&self, idx: Self::StEntryId) -> StEntry;

    /// Resolve an entry identifier.
    fn get(&self, idx: Self::StEntryId) -> (r: &StEntry)
        requires
            self.valid_id(idx),
        ensures
            *r == self.spec_get(idx),
    ;
}

/// One symbol record: its source lexeme and what kind of thing it names.
#[derive(Debug)]
pub struct StEntry {
    pub lexeme: String,
    pub kind: StEntryKind,
}

/// The kind of a symbol record.
#[derive(Debug)]
pub enum StEntryKind {
    Function(FunctionStEntry),
}

/// A function symbol: argument type names, return type name, and the
/// identifier of its inner scope.
#[derive(Debug)]
pub struct FunctionStEntry {
    pub args: Vec<String>,
    pub ret: String,
    pub inner_st: usize,
}

impl StEntryKind {
    /// The function record behind this kind, if it is one.
    pub fn unwrap_function(&self) -> (r: Option<&FunctionStEntry>)
        ensures
            match r {
                Some(f) => *self == StEntryKind::Function(*f),
                None => !(*self is Function),
            },
    {
        match self {
            Self::Function(s) => Some(s),
        }
    }
}

} // verus!
