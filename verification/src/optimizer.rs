//! The optimizer/emitter: turns the abstract instruction stream into a
//! contiguous machine-code buffer while resolving forward and backward
//! references.
//!
//! Labels may be referenced (through [`crate::ir::Constant::Tbd`] or
//! [`crate::ir::Instr::Call`]) before they are defined. Every such reference
//! emits a placeholder 8-byte immediate of zero and records a relocation
//! site: the byte offset of the immediate, which starts 2 bytes into the
//! load-immediate encoding. A final pass patches every site with the 8-byte
//! little-endian address its label resolved to; a site whose label was never
//! defined is an internal-consistency error, reported rather than left as a
//! silent zero.

use crate::error::BackendError;
use crate::ir::{Constant, Instr, Register};
use crate::program::StEntryRef;
use crate::x86_64_asm::{
    call_reg, mov_const, mov_regs, pop_reg, push_reg, ret, spec_call_reg, spec_mov_const,
    spec_mov_regs, spec_pop, spec_push, spec_ret, spec_syscall, syscall,
};
use vstd::bytes::*;
use vstd::prelude::*;

verus! {

/// A point in the eventual address space: a function entry named by its
/// symbol-table entry, a backend-generated point (such as the synthesized
/// program entry), or a read-only-data location named by its byte offset in
/// the data buffer.
#[derive(Clone, Copy, PartialEq, Eq, Structural, Debug, Hash)]
pub enum LabelId {
    StLabel(StEntryRef),
    CustomLabel(usize),
    DataAddr(u64),
}

/// Fixed limit on the machine-code buffer. Together with
/// [`MAX_INIT_ADDR`] it keeps every address computation inside `u64` (and
/// inside `usize` on any supported platform).
pub const MAX_CODE_LEN: usize = 0x0800_0000;

/// Fixed limit on the base virtual address code is emitted for.
pub const MAX_INIT_ADDR: u64 = 0x4000_0000;

/// The mathematical state of an [`Optimizer`]: the base address, the
/// relocation sites recorded so far (label, byte offset of the 8-byte
/// placeholder), the label definitions in the order they were made, and the
/// code bytes.
pub struct OptView {
    pub init_addr: u64,
    pub relocations: Seq<(LabelId, usize)>,
    pub labels: Seq<(LabelId, u64)>,
    pub code: Seq<u8>,
}

/// The address a label resolves to: the latest definition wins.
pub open spec fn lookup_label(labels: Seq<(LabelId, u64)>, lbl: LabelId) -> Option<u64>
    decreases labels.len(),
{
    if labels.len() == 0 {
        None
    } else if labels.last().0 == lbl {
        Some(labels.last().1)
    } else {
        lookup_label(labels.drop_last(), lbl)
    }
}

/// Relocation sites are in bounds and strictly ascending with 8-byte room:
/// no two placeholder fields overlap.
pub open spec fn relocs_wf(relocs: Seq<(LabelId, usize)>, code_len: int) -> bool {
    &&& forall|k: int| 0 <= k < relocs.len() ==> #[trigger] relocs[k].1 + 8 <= code_len
    &&& forall|k1: int, k2: int|
        #![trigger relocs[k1], relocs[k2]]
        0 <= k1 < k2 < relocs.len() ==> relocs[k1].1 + 8 <= relocs[k2].1
}

impl OptView {
    /// The invariant every reachable emitter state satisfies.
    pub open spec fn wf(self) -> bool {
        &&& self.init_addr <= MAX_INIT_ADDR
        &&& self.code.len() <= MAX_CODE_LEN
        &&& relocs_wf(self.relocations, self.code.len() as int)
    }
}

/// A fresh emitter state at the given base address.
pub open spec fn spec_new(init_addr: u64) -> OptView {
    OptView {
        init_addr,
        relocations: Seq::empty(),
        labels: Seq::empty(),
        code: Seq::empty(),
    }
}

/// Defining a label records the current emission address for it.
pub open spec fn spec_label(v: OptView, lbl: LabelId) -> OptView {
    OptView { labels: v.labels.push((lbl, (v.init_addr + v.code.len()) as u64)), ..v }
}

/// Assigning an address records it for the label as-is.
pub open spec fn spec_add_label(v: OptView, lbl: LabelId, addr: u64) -> OptView {
    OptView { labels: v.labels.push((lbl, addr)), ..v }
}

/// Every register the instruction names is a valid register number.
pub open spec fn spec_instr_ok(instr: Instr<LabelId>) -> bool {
    match instr {
        Instr::SetConstant(dest, _) => dest.0 < 16,
        Instr::MoveRegs { dest, orig } => dest.0 < 16 && orig.0 < 16,
        Instr::Push(r) => r.0 < 16,
        Instr::Pop(r) => r.0 < 16,
        Instr::FreeRegister(r) => r.0 < 16,
        Instr::Syscall => true,
        Instr::Ret => true,
        Instr::Call(_) => true,
    }
}

/// Accepting one instruction: the bytes it appends and the relocation site
/// it records, if any. A deferred constant emits its load-immediate with a
/// zero placeholder and records the offset of the immediate (2 bytes into
/// the encoding); a call loads its target address the same way and then
/// calls indirectly through the scratch register rax.
pub open spec fn spec_accept(v: OptView, instr: Instr<LabelId>) -> Result<OptView, BackendError> {
    if v.code.len() + 16 > MAX_CODE_LEN {
        Err(BackendError::CodeTooLarge)
    } else {
        match instr {
            Instr::SetConstant(dest, c) => match c {
                Constant::Value(val) => Ok(
                    OptView { code: v.code + spec_mov_const(dest.0, val), ..v },
                ),
                Constant::Tbd(lbl) => Ok(
                    OptView {
                        relocations: v.relocations.push((lbl, (v.code.len() + 2) as usize)),
                        code: v.code + spec_mov_const(dest.0, 0),
                        ..v
                    },
                ),
            },
            Instr::MoveRegs { dest, orig } => Ok(
                OptView { code: v.code + spec_mov_regs(dest.0, orig.0), ..v },
            ),
            Instr::Push(r) => Ok(OptView { code: v.code + spec_push(r.0), ..v }),
            Instr::Pop(r) => Ok(OptView { code: v.code + spec_pop(r.0), ..v }),
            Instr::FreeRegister(_) => Ok(v),
            Instr::Syscall => Ok(OptView { code: v.code + spec_syscall(), ..v }),
            Instr::Ret => Ok(OptView { code: v.code + spec_ret(), ..v }),
            Instr::Call(lbl) => Ok(
                OptView {
                    relocations: v.relocations.push((lbl, (v.code.len() + 2) as usize)),
                    code: v.code + spec_mov_const(0, 0) + spec_call_reg(0),
                    ..v
                },
            ),
        }
    }
}

/// The code bytes with an 8-byte little-endian address written at a site.
pub open spec fn spec_patch(code: Seq<u8>, site: int, addr: u64) -> Seq<u8> {
    code.take(site) + spec_u64_to_le_bytes(addr) + code.skip(site + 8)
}

/// The final patch pass, site by site: resolve each relocation's label and
/// write its address over the placeholder; fail on the first label that was
/// never defined.
pub open spec fn spec_apply_from(
    code: Seq<u8>,
    labels: Seq<(LabelId, u64)>,
    relocs: Seq<(LabelId, usize)>,
) -> Result<Seq<u8>, BackendError>
    decreases relocs.len(),
{
    if relocs.len() == 0 {
        Ok(code)
    } else {
        match lookup_label(labels, relocs[0].0) {
            None => Err(BackendError::UnresolvedLabel),
            Some(addr) => spec_apply_from(
                spec_patch(code, relocs[0].1 as int, addr),
                labels,
                relocs.drop_first(),
            ),
        }
    }
}

/// What resolving all relocations of an emitter state returns.
pub open spec fn spec_apply_relocs(v: OptView) -> Result<Seq<u8>, BackendError> {
    spec_apply_from(v.code, v.labels, v.relocations)
}

/// Some relocation site covers byte position `t`.
pub open spec fn site_covers(relocs: Seq<(LabelId, usize)>, t: int) -> bool {
    exists|k: int| 0 <= k < relocs.len() && #[trigger] relocs[k].1 <= t < relocs[k].1 + 8
}

/// Patching keeps the length and changes only the patched field.
pub proof fn lemma_patch_shape(code: Seq<u8>, site: int, addr: u64)
    requires
        0 <= site,
        site + 8 <= code.len(),
    ensures
        spec_patch(code, site, addr).len() == code.len(),
        spec_patch(code, site, addr).subrange(site, site + 8) == spec_u64_to_le_bytes(addr),
        forall|t: int|
            0 <= t < code.len() && !(site <= t < site + 8) ==> spec_patch(code, site, addr)[t]
                == code[t],
{
    lemma_auto_spec_u64_to_from_le_bytes();
    assert(spec_patch(code, site, addr).subrange(site, site + 8) =~= spec_u64_to_le_bytes(addr));
}

/// Law: when relocation resolution succeeds, every referenced label was
/// defined, the result keeps the code length, every relocation site holds
/// exactly the 8-byte little-endian address its label resolved to (whether
/// the reference was made before or after the definition, and however many
/// sites share one label), and every byte outside the sites is unchanged.
pub proof fn lemma_apply_relocs_patches(
    code: Seq<u8>,
    labels: Seq<(LabelId, u64)>,
    relocs: Seq<(LabelId, usize)>,
    out: Seq<u8>,
)
    requires
        relocs_wf(relocs, code.len() as int),
        spec_apply_from(code, labels, relocs) == Ok::<Seq<u8>, BackendError>(out),
    ensures
        out.len() == code.len(),
        forall|k: int|
            0 <= k < relocs.len() ==> #[trigger] lookup_label(labels, relocs[k].0) is Some,
        forall|k: int|
            0 <= k < relocs.len() ==> #[trigger] out.subrange(
                relocs[k].1 as int,
                relocs[k].1 + 8,
            ) == spec_u64_to_le_bytes(lookup_label(labels, relocs[k].0).unwrap()),
        forall|t: int| 0 <= t < code.len() && !site_covers(relocs, t) ==> out[t] == code[t],
    decreases relocs.len(),
{
    if relocs.len() > 0 {
        let lbl0 = relocs[0].0;
        let site0 = relocs[0].1 as int;
        let addr0 = lookup_label(labels, lbl0).unwrap();
        let code1 = spec_patch(code, site0, addr0);
        let rest = relocs.drop_first();
        lemma_patch_shape(code, site0, addr0);
        assert(forall|k: int| 0 <= k < rest.len() ==> rest[k] == relocs[k + 1]);
        assert(relocs_wf(rest, code1.len() as int));
        lemma_apply_relocs_patches(code1, labels, rest, out);
        // Later sites start at or after site0 + 8, so the first patched
        // field survives the remaining patches.
        assert forall|t: int| site0 <= t < site0 + 8 implies out[t] == code1[t] by {
            if site_covers(rest, t) {
                let k = choose|k: int|
                    0 <= k < rest.len() && #[trigger] rest[k].1 <= t < rest[k].1 + 8;
                assert(relocs[0].1 + 8 <= relocs[k + 1].1);
            }
        }
        assert forall|k: int| 0 <= k < relocs.len() implies #[trigger] out.subrange(
            relocs[k].1 as int,
            relocs[k].1 + 8,
        ) == spec_u64_to_le_bytes(lookup_label(labels, relocs[k].0).unwrap()) by {
            if k == 0 {
                assert(out.subrange(site0, site0 + 8) =~= code1.subrange(site0, site0 + 8));
            } else {
                assert(rest[k - 1] == relocs[k]);
            }
        }
        assert forall|t: int| 0 <= t < code.len() && !site_covers(relocs, t) implies out[t]
            == code[t] by {
            assert(!(site0 <= t < site0 + 8)) by {
                if site0 <= t < site0 + 8 {
                    assert(relocs[0].1 <= t < relocs[0].1 + 8);
                }
            }
            if site_covers(rest, t) {
                let k = choose|k: int|
                    0 <= k < rest.len() && #[trigger] rest[k].1 <= t < rest[k].1 + 8;
                assert(relocs[k + 1].1 <= t < relocs[k + 1].1 + 8);
            }
            assert(out[t] == code1[t]);
        }
        assert(forall|k: int|
            0 <= k < relocs.len() ==> #[trigger] lookup_label(labels, relocs[k].0) is Some)
            by {
            assert(forall|k: int|
                1 <= k < relocs.len() ==> rest[k - 1] == relocs[k] && #[trigger] lookup_label(
                    labels,
                    relocs[k].0,
                ) == lookup_label(labels, rest[k - 1].0));
        }
    }
}

/// The emitter: base address, relocation table, label table, and the code
/// buffer, each exclusively owned for the duration of one compilation.
pub struct Optimizer {
    init_addr: u64,
    relocations: Vec<(LabelId, usize)>,
    labels: Vec<(LabelId, u64)>,
    code: Vec<u8>,
}

impl View for Optimizer {
    type V = OptView;

    closed spec fn view(&self) -> OptView {
        OptView {
            init_addr: self.init_addr,
            relocations: self.relocations@,
            labels: self.labels@,
            code: self.code@,
        }
    }
}

impl Optimizer {
    /// A fresh emitter that will emit code for the given base address.
    pub fn new(init_addr: u64) -> (r: Self)
        requires
            init_addr <= MAX_INIT_ADDR,
        ensures
            r@ == spec_new(init_addr),
            r@.wf(),
    {
        let r = Self {
            init_addr,
            labels: Vec::new(),
            code: Vec::new(),
            relocations: Vec::new(),
        };
        proof {
            assert(r@ =~= spec_new(init_addr));
        }
        r
    }

    /// Define a label here: it resolves to the base address plus the length
    /// of the code emitted so far. Defining the same label twice keeps the
    /// later definition.
    pub fn label(&mut self, label: LabelId)
        requires
            old(self)@.wf(),
        ensures
            final(self)@ == spec_label(old(self)@, label),
            final(self)@.wf(),
    {
        let addr = self.init_addr + self.code.len() as u64;
        self.labels.push((label, addr));
        proof {
            assert(final(self)@ =~= spec_label(old(self)@, label));
        }
    }

    /// Assign an address to a label after the fact (used for data placement
    /// computed only once the code length is known).
    pub fn add_label(&mut self, label: LabelId, addr: u64)
        requires
            old(self)@.wf(),
        ensures
            final(self)@ == spec_add_label(old(self)@, label, addr),
            final(self)@.wf(),
    {
        self.labels.push((label, addr));
        proof {
            assert(final(self)@ =~= spec_add_label(old(self)@, label, addr));
        }
    }

    /// Append the machine bytes of one instruction, recording a relocation
    /// site when the instruction references a label.
    pub fn accept(&mut self, instr: Instr<LabelId>) -> (result: Result<(), BackendError>)
        requires
            old(self)@.wf(),
            spec_instr_ok(instr),
        ensures
            final(self)@.wf(),
            match result {
                Ok(()) => spec_accept(old(self)@, instr) == Ok::<OptView, BackendError>(
                    final(self)@,
                ),
                Err(e) => spec_accept(old(self)@, instr) == Err::<OptView, BackendError>(e)
                    && final(self)@ == old(self)@,
            },
    {
        if self.code.len() + 16 > MAX_CODE_LEN {
            return Err(BackendError::CodeTooLarge);
        }
        match instr {
            Instr::SetConstant(dest, c) => {
                let val = match c {
                    Constant::Value(v) => v,
                    Constant::Tbd(lbl) => {
                        let idx = self.code.len() + 2;
                        self.relocations.push((lbl, idx));
                        0
                    },
                };
                mov_const(dest, val, &mut self.code);
                proof {
                    crate::x86_64_asm::lemma_mov_const_shape(dest.0, val);
                    assert(spec_accept(old(self)@, instr) == Ok::<OptView, BackendError>(
                        final(self)@,
                    ));
                }
            },
            Instr::MoveRegs { dest, orig } => {
                mov_regs(dest, orig, &mut self.code);
                proof {
                    assert(spec_accept(old(self)@, instr) == Ok::<OptView, BackendError>(
                        final(self)@,
                    ));
                }
            },
            Instr::Push(r) => {
                push_reg(r, &mut self.code);
                proof {
                    assert(spec_accept(old(self)@, instr) == Ok::<OptView, BackendError>(
                        final(self)@,
                    ));
                }
            },
            Instr::Pop(r) => {
                pop_reg(r, &mut self.code);
                proof {
                    assert(spec_accept(old(self)@, instr) == Ok::<OptView, BackendError>(
                        final(self)@,
                    ));
                }
            },
            Instr::FreeRegister(_) => {},
            Instr::Syscall => {
                syscall(&mut self.code);
                proof {
                    assert(spec_accept(old(self)@, instr) == Ok::<OptView, BackendError>(
                        final(self)@,
                    ));
                }
            },
            Instr::Ret => {
                ret(&mut self.code);
                proof {
                    assert(spec_accept(old(self)@, instr) == Ok::<OptView, BackendError>(
                        final(self)@,
                    ));
                }
            },
            Instr::Call(lbl) => {
                let idx = self.code.len() + 2;
                self.relocations.push((lbl, idx));
                mov_const(Register(0), 0, &mut self.code);
                call_reg(Register(0), &mut self.code);
                proof {
                    crate::x86_64_asm::lemma_mov_const_shape(0, 0);
                    assert(spec_accept(old(self)@, instr) == Ok::<OptView, BackendError>(
                        final(self)@,
                    ));
                }
            },
        }
        Ok(())
    }

    /// The base address the emitter was created with.
    pub fn get_init_addr(&self) -> (r: u64)
        ensures
            r == self@.init_addr,
    {
        self.init_addr
    }

    /// How many code bytes have been emitted so far.
    pub fn get_code_len(&self) -> (r: usize)
        ensures
            r == self@.code.len(),
    {
        self.code.len()
    }

    /// The address a label currently resolves to, if it was defined.
    pub fn get_label(&self, lbl: &LabelId) -> (result: Option<u64>)
        ensures
            result == lookup_label(self@.labels, *lbl),
    {
        let mut i = self.labels.len();
        proof {
            assert(self@.labels.take(i as int) =~= self@.labels);
        }
        while i > 0
            invariant
                i <= self.labels.len(),
                lookup_label(self@.labels, *lbl) == lookup_label(
                    self@.labels.take(i as int),
                    *lbl,
                ),
            decreases i,
        {
            i = i - 1;
            let entry = &self.labels[i];
            proof {
                assert(self@.labels.take(i + 1).last() == self@.labels[i as int]);
                assert(self@.labels.take(i + 1).drop_last() =~= self@.labels.take(i as int));
            }
            if entry.0 == *lbl {
                return Some(entry.1);
            }
        }
        None
    }

    /// The final, consuming step: patch every recorded relocation site with
    /// the little-endian address of its label and return the finished code,
    /// or report a label that was referenced and never defined.
    pub fn apply_relocs(self) -> (result: Result<Vec<u8>, BackendError>)
        requires
            self@.wf(),
        ensures
            match result {
                Ok(bytes) => spec_apply_relocs(self@) == Ok::<Seq<u8>, BackendError>(bytes@),
                Err(e) => spec_apply_relocs(self@) == Err::<Seq<u8>, BackendError>(e),
            },
    {
        let ghost orig = self@;
        let mut this = self;
        let n = this.relocations.len();
        let mut k: usize = 0;
        proof {
            assert(orig.relocations.skip(0) =~= orig.relocations);
        }
        #[verifier::loop_isolation(false)]
        while k < n
            invariant
                k <= n,
                n == this.relocations.len(),
                this@.labels == orig.labels,
                this@.relocations == orig.relocations,
                this@.code.len() == orig.code.len(),
                orig.wf(),
                spec_apply_from(orig.code, orig.labels, orig.relocations) == spec_apply_from(
                    this@.code,
                    orig.labels,
                    orig.relocations.skip(k as int),
                ),
            decreases n - k,
        {
            let lbl = this.relocations[k].0;
            let site = this.relocations[k].1;
            proof {
                assert(orig.relocations.skip(k as int)[0] == orig.relocations[k as int]);
                assert(orig.relocations[k as int].1 + 8 <= orig.code.len());
            }
            match this.get_label(&lbl) {
                None => {
                    proof {
                        assert(orig.relocations.skip(k as int).len() > 0);
                        assert(spec_apply_from(
                            this@.code,
                            orig.labels,
                            orig.relocations.skip(k as int),
                        ) == Err::<Seq<u8>, BackendError>(BackendError::UnresolvedLabel));
                    }
                    return Err(BackendError::UnresolvedLabel);
                },
                Some(addr) => {
                    let bytes = u64_to_le_bytes(addr);
                    let code_len = this.code.len();
                    proof {
                        assert(site + 8 <= code_len);
                    }
                    let ghost before = this@.code;
                    let mut j: usize = 0;
                    while j < 8
                        invariant
                            j <= 8,
                            site + 8 <= usize::MAX,
                            bytes@.len() == 8,
                            bytes@ == spec_u64_to_le_bytes(addr),
                            site + 8 <= this@.code.len(),
                            this@.code.len() == before.len(),
                            this@.labels == orig.labels,
                            this@.relocations == orig.relocations,
                            forall|t: int|
                                0 <= t < before.len() && !(site <= t < site + j) ==> this@.code[t]
                                    == before[t],
                            forall|t: int| 0 <= t < j ==> this@.code[site + t] == bytes@[t],
                        decreases 8 - j,
                    {
                        this.code[site + j] = bytes[j];
                        j = j + 1;
                    }
                    proof {
                        lemma_auto_spec_u64_to_from_le_bytes();
                        assert(this@.code =~= spec_patch(before, site as int, addr));
                        assert(orig.relocations.skip(k as int).drop_first() =~= orig.relocations
                            .skip(k as int + 1));
                        assert(spec_apply_from(before, orig.labels, orig.relocations.skip(k as int))
                            == spec_apply_from(
                            this@.code,
                            orig.labels,
                            orig.relocations.skip(k as int + 1),
                        ));
                    }
                },
            }
            k = k + 1;
        }
        proof {
            assert(orig.relocations.skip(n as int) =~= Seq::<(LabelId, usize)>::empty());
        }
        Ok(this.code)
    }
}

} // verus!
