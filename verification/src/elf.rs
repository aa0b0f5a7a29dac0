//! A minimal ELF64 executable image builder.
//!
//! The builder collects memory segments (code, read-only data, writable
//! data, zero-initialized data) and assembles the smallest loadable image:
//! the 64-byte ELF header, one 56-byte `PT_LOAD` program header per segment,
//! then each segment's raw bytes, in insertion order. No section headers are
//! emitted. The whole file layout is a function of segment order and sizes
//! alone, so identical inputs always produce an identical byte-for-byte
//! file.

use vstd::bytes::*;
use vstd::prelude::*;

verus! {

/// Size of the ELF header in bytes.
pub const EHDR_SIZE: u64 = 64;

/// Size of one program-header entry in bytes.
pub const PH_ENTRY_SIZE: u64 = 56;

/// Size of one section-header entry in bytes (none are emitted; the size
/// still belongs in the ELF header).
pub const SH_ENTRY_SIZE: u64 = 64;

/// Program-header flag: the segment is readable.
pub const PH_FLAG_R: u32 = 0x4;

/// Program-header flag: the segment is writable.
pub const PH_FLAG_W: u32 = 0x2;

/// Program-header flag: the segment is executable.
pub const PH_FLAG_X: u32 = 0x1;

/// Readable and writable.
pub const PH_FLAGS_RW: u32 = 0x6;

/// Readable and executable.
pub const PH_FLAGS_RX: u32 = 0x5;

/// The largest number of segments one image can carry: the program-header
/// count lives in a 16-bit header field.
pub const MAX_SEGMENTS: usize = 0xffff;

/// Every file offset must stay well inside `u64`.
pub const MAX_FILE_SIZE: u64 = 0x0000_ffff_ffff_ffff;

/// The 16 identification bytes: magic, 64-bit class, little-endian data,
/// current version, Linux OS/ABI, zero padding.
pub open spec fn spec_elf_ident() -> Seq<u8> {
    seq![
        0x7fu8,
        0x45u8,
        0x4cu8,
        0x46u8,
        2u8,
        1u8,
        1u8,
        3u8,
        0u8,
        0u8,
        0u8,
        0u8,
        0u8,
        0u8,
        0u8,
        0u8,
    ]
}

/// The identification array at the head of every ELF file.
#[derive(Debug, Clone, Copy)]
pub struct Elf64Ident {
    bytes: [u8; 16],
}

impl View for Elf64Ident {
    type V = Seq<u8>;

    closed spec fn view(&self) -> Seq<u8> {
        self.bytes@
    }
}

impl Elf64Ident {
    /// The identification bytes of a 64-bit little-endian Linux executable.
    pub fn new() -> (r: Self)
        ensures
            r@ == spec_elf_ident(),
    {
        let r = Self {
            bytes: [0x7fu8, 0x45u8, 0x4cu8, 0x46u8, 2u8, 1u8, 1u8, 3u8, 0u8, 0u8, 0u8, 0u8, 0u8, 0u8, 0u8, 0u8],
        };
        proof {
            assert(r@ =~= spec_elf_ident());
        }
        r
    }

    /// Append the identification bytes to `out`.
    pub fn write_to(&self, out: &mut Vec<u8>)
        ensures
            final(out)@ == old(out)@ + self@,
    {
        let mut i: usize = 0;
        while i < 16
            invariant
                i <= 16,
                self@.len() == 16,
                out@ == old(out)@ + self@.take(i as int),
            decreases 16 - i,
        {
            out.push(self.bytes[i]);
            proof {
                assert(old(out)@ + self@.take(i as int) + seq![self@[i as int]] =~= old(out)@
                    + self@.take(i as int + 1));
            }
            i = i + 1;
        }
        proof {
            assert(self@.take(16) =~= self@);
        }
    }
}

/// The 64 bytes of the ELF header for an image with the given entry
/// address, program-header table offset, and program-header count: type
/// `EXEC`, machine x86-64, no section headers.
pub open spec fn spec_ehdr_bytes(entrypoint: u64, ph_offset: u64, ph_num: u16) -> Seq<u8> {
    spec_elf_ident() + spec_u16_to_le_bytes(2) + spec_u16_to_le_bytes(62) + spec_u32_to_le_bytes(1)
        + spec_u64_to_le_bytes(entrypoint) + spec_u64_to_le_bytes(ph_offset)
        + spec_u64_to_le_bytes(0) + spec_u32_to_le_bytes(0) + spec_u16_to_le_bytes(64)
        + spec_u16_to_le_bytes(56) + spec_u16_to_le_bytes(ph_num) + spec_u16_to_le_bytes(64)
        + spec_u16_to_le_bytes(0) + spec_u16_to_le_bytes(0)
}

/// The ELF header is 64 bytes.
pub proof fn lemma_ehdr_bytes_len(entrypoint: u64, ph_offset: u64, ph_num: u16)
    ensures
        spec_ehdr_bytes(entrypoint, ph_offset, ph_num).len() == 64,
{
    lemma_auto_spec_u16_to_from_le_bytes();
    lemma_auto_spec_u32_to_from_le_bytes();
    lemma_auto_spec_u64_to_from_le_bytes();
}

/// The ELF file header.
#[derive(Debug, Clone, Copy)]
pub struct Elf64EHdr {
    e_ident: Elf64Ident,
    e_type: u16,
    e_machine: u16,
    e_version: u32,
    e_entry: u64,
    e_phoff: u64,
    e_shoff: u64,
    e_flags: u32,
    e_ehsize: u16,
    e_phentsize: u16,
    e_phnum: u16,
    e_shentsize: u16,
    e_shnum: u16,
    e_shstrndx: u16,
}

impl View for Elf64EHdr {
    type V = Seq<u8>;

    closed spec fn view(&self) -> Seq<u8> {
        self.e_ident@ + spec_u16_to_le_bytes(self.e_type) + spec_u16_to_le_bytes(self.e_machine)
            + spec_u32_to_le_bytes(self.e_version) + spec_u64_to_le_bytes(self.e_entry)
            + spec_u64_to_le_bytes(self.e_phoff) + spec_u64_to_le_bytes(self.e_shoff)
            + spec_u32_to_le_bytes(self.e_flags) + spec_u16_to_le_bytes(self.e_ehsize)
            + spec_u16_to_le_bytes(self.e_phentsize) + spec_u16_to_le_bytes(self.e_phnum)
            + spec_u16_to_le_bytes(self.e_shentsize) + spec_u16_to_le_bytes(self.e_shnum)
            + spec_u16_to_le_bytes(self.e_shstrndx)
    }
}

impl Elf64EHdr {
    /// The header of an executable, 64-bit, little-endian, Linux, x86-64
    /// image with the given entry address and program-header table.
    pub fn new(entrypoint: u64, ph_offset: u64, ph_num: u16) -> (r: Self)
        ensures
            r@ == spec_ehdr_bytes(entrypoint, ph_offset, ph_num),
    {
        let r = Self {
            e_ident: Elf64Ident::new(),
            e_type: 2,  // EXEC
            e_machine: 62,  // x86-64
            e_version: 1,  // current
            e_entry: entrypoint,
            e_phoff: ph_offset,
            e_shoff: 0,
            e_flags: 0,
            e_ehsize: 64,
            e_phentsize: 56,
            e_phnum: ph_num,
            e_shentsize: 64,
            e_shnum: 0,
            e_shstrndx: 0,
        };
        proof {
            assert(r@ =~= spec_ehdr_bytes(entrypoint, ph_offset, ph_num));
        }
        r
    }

    /// Append the 64 header bytes to `out`.
    pub fn write_to(&self, out: &mut Vec<u8>)
        ensures
            final(out)@ == old(out)@ + self@,
    {
        self.e_ident.write_to(out);
        let mut piece = u16_to_le_bytes(self.e_type);
        out.append(&mut piece);
        let mut piece = u16_to_le_bytes(self.e_machine);
        out.append(&mut piece);
        let mut piece = u32_to_le_bytes(self.e_version);
        out.append(&mut piece);
        let mut piece = u64_to_le_bytes(self.e_entry);
        out.append(&mut piece);
        let mut piece = u64_to_le_bytes(self.e_phoff);
        out.append(&mut piece);
        let mut piece = u64_to_le_bytes(self.e_shoff);
        out.append(&mut piece);
        let mut piece = u32_to_le_bytes(self.e_flags);
        out.append(&mut piece);
        let mut piece = u16_to_le_bytes(self.e_ehsize);
        out.append(&mut piece);
        let mut piece = u16_to_le_bytes(self.e_phentsize);
        out.append(&mut piece);
        let mut piece = u16_to_le_bytes(self.e_phnum);
        out.append(&mut piece);
        let mut piece = u16_to_le_bytes(self.e_shentsize);
        out.append(&mut piece);
        let mut piece = u16_to_le_bytes(self.e_shnum);
        out.append(&mut piece);
        let mut piece = u16_to_le_bytes(self.e_shstrndx);
        out.append(&mut piece);
        proof {
            assert(final(out)@ =~= old(out)@ + self@);
        }
    }
}

/// The 56 bytes of one `PT_LOAD` program-header entry.
pub open spec fn spec_ph_bytes(
    offset: u64,
    vaddr: u64,
    filesz: u64,
    memsz: u64,
    flags: u32,
    align: u64,
) -> Seq<u8> {
    spec_u32_to_le_bytes(1) + spec_u32_to_le_bytes(flags) + spec_u64_to_le_bytes(offset)
        + spec_u64_to_le_bytes(vaddr) + spec_u64_to_le_bytes(0) + spec_u64_to_le_bytes(filesz)
        + spec_u64_to_le_bytes(memsz) + spec_u64_to_le_bytes(align)
}

/// A program-header entry is 56 bytes: the `PT_LOAD` type in bytes 0..4,
/// the permission flags in bytes 4..8, the file offset in bytes 8..16.
pub proof fn lemma_ph_bytes_shape(
    offset: u64,
    vaddr: u64,
    filesz: u64,
    memsz: u64,
    flags: u32,
    align: u64,
)
    ensures
        spec_ph_bytes(offset, vaddr, filesz, memsz, flags, align).len() == 56,
        spec_ph_bytes(offset, vaddr, filesz, memsz, flags, align).subrange(0, 4)
            == spec_u32_to_le_bytes(1),
        spec_ph_bytes(offset, vaddr, filesz, memsz, flags, align).subrange(4, 8)
            == spec_u32_to_le_bytes(flags),
        spec_ph_bytes(offset, vaddr, filesz, memsz, flags, align).subrange(8, 16)
            == spec_u64_to_le_bytes(offset),
{
    lemma_auto_spec_u32_to_from_le_bytes();
    lemma_auto_spec_u64_to_from_le_bytes();
    assert(spec_ph_bytes(offset, vaddr, filesz, memsz, flags, align).subrange(0, 4)
        =~= spec_u32_to_le_bytes(1));
    assert(spec_ph_bytes(offset, vaddr, filesz, memsz, flags, align).subrange(4, 8)
        =~= spec_u32_to_le_bytes(flags));
    assert(spec_ph_bytes(offset, vaddr, filesz, memsz, flags, align).subrange(8, 16)
        =~= spec_u64_to_le_bytes(offset));
}

/// One program-header entry.
#[derive(Debug, Clone, Copy)]
pub struct PhEntry {
    p_type: u32,
    p_flags: u32,
    p_offset: u64,
    p_vaddr: u64,
    p_paddr: u64,
    p_filesz: u64,
    p_memsz: u64,
    p_align: u64,
}

impl View for PhEntry {
    type V = Seq<u8>;

    closed spec fn view(&self) -> Seq<u8> {
        spec_u32_to_le_bytes(self.p_type) + spec_u32_to_le_bytes(self.p_flags)
            + spec_u64_to_le_bytes(self.p_offset) + spec_u64_to_le_bytes(self.p_vaddr)
            + spec_u64_to_le_bytes(self.p_paddr) + spec_u64_to_le_bytes(self.p_filesz)
            + spec_u64_to_le_bytes(self.p_memsz) + spec_u64_to_le_bytes(self.p_align)
    }
}

impl PhEntry {
    /// A `PT_LOAD` entry with the given layout fields.
    pub fn new(offset: u64, vaddr: u64, filesz: u64, memsz: u64, flags: u32, align: u64) -> (r:
        Self)
        ensures
            r@ == spec_ph_bytes(offset, vaddr, filesz, memsz, flags, align),
    {
        let r = Self {
            p_type: 1,  // PT_LOAD
            p_flags: flags,
            p_offset: offset,
            p_vaddr: vaddr,
            p_paddr: 0,
            p_filesz: filesz,
            p_memsz: memsz,
            p_align: align,
        };
        proof {
            assert(r@ =~= spec_ph_bytes(offset, vaddr, filesz, memsz, flags, align));
        }
        r
    }

    /// Append the 56 entry bytes to `out`.
    pub fn write_to(&self, out: &mut Vec<u8>)
        ensures
            final(out)@ == old(out)@ + self@,
    {
        let mut piece = u32_to_le_bytes(self.p_type);
        out.append(&mut piece);
        let mut piece = u32_to_le_bytes(self.p_flags);
        out.append(&mut piece);
        let mut piece = u64_to_le_bytes(self.p_offset);
        out.append(&mut piece);
        let mut piece = u64_to_le_bytes(self.p_vaddr);
        out.append(&mut piece);
        let mut piece = u64_to_le_bytes(self.p_paddr);
        out.append(&mut piece);
        let mut piece = u64_to_le_bytes(self.p_filesz);
        out.append(&mut piece);
        let mut piece = u64_to_le_bytes(self.p_memsz);
        out.append(&mut piece);
        let mut piece = u64_to_le_bytes(self.p_align);
        out.append(&mut piece);
        proof {
            assert(final(out)@ =~= old(out)@ + self@);
        }
    }
}

/// One section-header entry. The builder emits no section headers; the
/// type records the layout whose size the ELF header still names.
#[derive(Debug, Clone, Copy)]
pub struct ShEntry {
    pub sh_name: u32,
    pub sh_type: u32,
    pub sh_flags: u64,
    pub sh_addr: u64,
    pub sh_offset: u64,
    pub sh_size: u64,
    pub sh_link: u32,
    pub sh_info: u32,
    pub sh_addralign: u64,
    pub sh_entsize: u64,
}

/// The mathematical content of one segment: permission flags, on-disk
/// bytes, in-memory size, virtual address, and alignment.
pub struct SegView {
    pub flags: u32,
    pub data: Seq<u8>,
    pub memsz: u64,
    pub vaddr: u64,
    pub align: u64,
}

/// One contiguous region of the executable's address space with uniform
/// permissions, backed by zero or more on-disk bytes.
#[derive(Debug)]
pub struct ElfFileSegment {
    flags: u32,
    data: Vec<u8>,
    memsz: u64,
    vaddr: u64,
    align: u64,
}

impl View for ElfFileSegment {
    type V = SegView;

    closed spec fn view(&self) -> SegView {
        SegView {
            flags: self.flags,
            data: self.data@,
            memsz: self.memsz,
            vaddr: self.vaddr,
            align: self.align,
        }
    }
}

/// The mathematical state of a builder: the segments in insertion order
/// and the entry address.
pub struct BuilderView {
    pub segments: Seq<SegView>,
    pub entrypoint: u64,
}

/// Total on-disk size of the first `i` segments' payloads.
pub open spec fn spec_payload_len(segs: Seq<SegView>, i: int) -> int
    decreases i,
{
    if i <= 0 {
        0
    } else {
        spec_payload_len(segs, i - 1) + segs[i - 1].data.len()
    }
}

/// The file offset of segment `i`'s payload: the header tables, then every
/// earlier payload.
pub open spec fn spec_seg_offset(segs: Seq<SegView>, i: int) -> int {
    64 + 56 * segs.len() + spec_payload_len(segs, i)
}

/// The program-header table for the first `i` segments.
pub open spec fn spec_ph_table(segs: Seq<SegView>, i: int) -> Seq<u8>
    decreases i,
{
    if i <= 0 {
        Seq::empty()
    } else {
        spec_ph_table(segs, i - 1) + spec_seg_ph_bytes(segs, i - 1)
    }
}

/// The program-header entry of segment `i`.
pub open spec fn spec_seg_ph_bytes(segs: Seq<SegView>, i: int) -> Seq<u8> {
    spec_ph_bytes(
        spec_seg_offset(segs, i) as u64,
        segs[i].vaddr,
        segs[i].data.len() as u64,
        segs[i].memsz,
        segs[i].flags,
        segs[i].align,
    )
}

/// The payloads of the first `i` segments, concatenated in order.
pub open spec fn spec_payloads(segs: Seq<SegView>, i: int) -> Seq<u8>
    decreases i,
{
    if i <= 0 {
        Seq::empty()
    } else {
        spec_payloads(segs, i - 1) + segs[i - 1].data
    }
}

/// The complete image: ELF header, program-header table, payloads.
pub open spec fn spec_elf_file(b: BuilderView) -> Seq<u8> {
    spec_ehdr_bytes(b.entrypoint, 64, b.segments.len() as u16) + spec_ph_table(
        b.segments,
        b.segments.len() as int,
    ) + spec_payloads(b.segments, b.segments.len() as int)
}

/// Payload sizes never go negative.
pub proof fn lemma_payload_len_nonneg(segs: Seq<SegView>, i: int)
    ensures
        0 <= spec_payload_len(segs, i),
    decreases i,
{
    if i > 0 {
        lemma_payload_len_nonneg(segs, i - 1);
    }
}

/// Payload sizes accumulate monotonically.
pub proof fn lemma_payload_len_mono(segs: Seq<SegView>, i: int, j: int)
    requires
        i <= j,
    ensures
        spec_payload_len(segs, i) <= spec_payload_len(segs, j),
    decreases j - i,
{
    if i < j {
        lemma_payload_len_mono(segs, i, j - 1);
    }
}

/// Payload sizes accumulate monotonically and never go negative.
pub proof fn lemma_payload_len_bounds(segs: Seq<SegView>, i: int, j: int)
    requires
        0 <= i <= j,
    ensures
        0 <= spec_payload_len(segs, i) <= spec_payload_len(segs, j),
{
    lemma_payload_len_nonneg(segs, i);
    lemma_payload_len_mono(segs, i, j);
}

/// The program-header table for `i` segments is `56 * i` bytes.
pub proof fn lemma_ph_table_len(segs: Seq<SegView>, i: int)
    requires
        0 <= i,
    ensures
        spec_ph_table(segs, i).len() == 56 * i,
    decreases i,
{
    if i > 0 {
        lemma_ph_table_len(segs, i - 1);
        lemma_ph_bytes_shape(
            spec_seg_offset(segs, i - 1) as u64,
            segs[i - 1].vaddr,
            segs[i - 1].data.len() as u64,
            segs[i - 1].memsz,
            segs[i - 1].flags,
            segs[i - 1].align,
        );
    }
}

/// The payload region for `i` segments is `spec_payload_len(segs, i)` bytes.
pub proof fn lemma_payloads_len(segs: Seq<SegView>, i: int)
    requires
        0 <= i,
    ensures
        spec_payloads(segs, i).len() == spec_payload_len(segs, i),
    decreases i,
{
    if i > 0 {
        lemma_payloads_len(segs, i - 1);
        lemma_payload_len_bounds(segs, i - 1, i - 1);
    }
}

/// Within the payload region, segment `i`'s bytes sit exactly at their
/// cumulative offset.
pub proof fn lemma_payloads_slice(segs: Seq<SegView>, k: int, i: int)
    requires
        0 <= i < k,
    ensures
        spec_payloads(segs, k).len() == spec_payload_len(segs, k),
        spec_payloads(segs, k).subrange(
            spec_payload_len(segs, i),
            spec_payload_len(segs, i) + segs[i].data.len(),
        ) == segs[i].data,
    decreases k,
{
    lemma_payloads_len(segs, k);
    lemma_payloads_len(segs, k - 1);
    lemma_payload_len_bounds(segs, 0, i);
    lemma_payload_len_bounds(segs, i, k);
    let pre = spec_payloads(segs, k - 1);
    let d = segs[i].data;
    let lo = spec_payload_len(segs, i);
    let sub = spec_payloads(segs, k).subrange(lo, lo + d.len());
    assert(spec_payloads(segs, k) == pre + segs[k - 1].data);
    if i == k - 1 {
        assert forall|t: int| 0 <= t < d.len() implies sub[t] == d[t] by {
            assert(sub[t] == (pre + d)[pre.len() + t]);
        }
        assert(sub =~= d);
    } else {
        lemma_payloads_slice(segs, k - 1, i);
        lemma_payload_len_bounds(segs, i + 1, k - 1);
        assert(spec_payload_len(segs, i + 1) == lo + d.len());
        assert forall|t: int| 0 <= t < d.len() implies sub[t] == pre.subrange(
            lo,
            lo + d.len(),
        )[t] by {
            assert(sub[t] == (pre + segs[k - 1].data)[lo + t]);
        }
        assert(sub =~= pre.subrange(lo, lo + d.len()));
    }
}

/// Within the program-header table, segment `i`'s entry sits at `56 * i`.
pub proof fn lemma_ph_table_slice(segs: Seq<SegView>, k: int, i: int)
    requires
        0 <= i < k,
    ensures
        spec_ph_table(segs, k).len() == 56 * k,
        spec_ph_table(segs, k).subrange(56 * i, 56 * i + 56) == spec_seg_ph_bytes(segs, i),
    decreases k,
{
    lemma_ph_table_len(segs, k);
    lemma_ph_bytes_shape(
        spec_seg_offset(segs, i) as u64,
        segs[i].vaddr,
        segs[i].data.len() as u64,
        segs[i].memsz,
        segs[i].flags,
        segs[i].align,
    );
    lemma_ph_table_len(segs, k - 1);
    let pre = spec_ph_table(segs, k - 1);
    let entry = spec_seg_ph_bytes(segs, i);
    let last = spec_seg_ph_bytes(segs, k - 1);
    let sub = spec_ph_table(segs, k).subrange(56 * i, 56 * i + 56);
    assert(spec_ph_table(segs, k) == pre + last);
    if i == k - 1 {
        assert forall|t: int| 0 <= t < 56 implies sub[t] == entry[t] by {
            assert(sub[t] == (pre + entry)[pre.len() + t]);
        }
        assert(sub =~= entry);
    } else {
        lemma_ph_table_slice(segs, k - 1, i);
        assert forall|t: int| 0 <= t < 56 implies sub[t] == pre.subrange(
            56 * i,
            56 * i + 56,
        )[t] by {
            assert(sub[t] == (pre + last)[56 * i + t]);
        }
        assert(sub =~= pre.subrange(56 * i, 56 * i + 56));
    }
}

/// Law: the ELF header plus the program-header table end exactly where the
/// first payload begins; the file offset recorded in segment `i`'s program
/// header equals the actual byte position of its payload in the image; and
/// the payload bytes at that position are the segment's bytes.
pub proof fn lemma_segment_layout(b: BuilderView, i: int)
    requires
        0 <= i < b.segments.len(),
        b.segments.len() <= MAX_SEGMENTS,
        spec_seg_offset(b.segments, b.segments.len() as int) <= MAX_FILE_SIZE,
    ensures
        spec_seg_offset(b.segments, 0) == 64 + 56 * b.segments.len(),
        spec_elf_file(b).subrange(64 + 56 * i + 8, 64 + 56 * i + 16) == spec_u64_to_le_bytes(
            spec_seg_offset(b.segments, i) as u64,
        ),
        spec_elf_file(b).subrange(
            spec_seg_offset(b.segments, i),
            spec_seg_offset(b.segments, i) + b.segments[i].data.len(),
        ) == b.segments[i].data,
{
    let segs = b.segments;
    let n = segs.len() as int;
    let file = spec_elf_file(b);
    lemma_ehdr_bytes_len(b.entrypoint, 64, segs.len() as u16);
    lemma_ph_table_len(segs, n);
    lemma_payloads_len(segs, n);
    lemma_ph_table_slice(segs, n, i);
    lemma_payloads_slice(segs, n, i);
    lemma_payload_len_bounds(segs, 0, i);
    lemma_payload_len_bounds(segs, i, i + 1);
    lemma_payload_len_bounds(segs, i + 1, n);
    lemma_ph_bytes_shape(
        spec_seg_offset(segs, i) as u64,
        segs[i].vaddr,
        segs[i].data.len() as u64,
        segs[i].memsz,
        segs[i].flags,
        segs[i].align,
    );
    assert(file.subrange(64 + 56 * i + 8, 64 + 56 * i + 16) =~= spec_ph_table(segs, n).subrange(
        56 * i + 8,
        56 * i + 16,
    ));
    assert(spec_ph_table(segs, n).subrange(56 * i + 8, 56 * i + 16) =~= spec_ph_table(
        segs,
        n,
    ).subrange(56 * i, 56 * i + 56).subrange(8, 16));
    assert(file.subrange(
        spec_seg_offset(segs, i),
        spec_seg_offset(segs, i) + segs[i].data.len(),
    ) =~= spec_payloads(segs, n).subrange(
        spec_payload_len(segs, i),
        spec_payload_len(segs, i) + segs[i].data.len(),
    ));
}

/// The image identifies itself exactly as the ELF header promises: the
/// magic, 64-bit class, little-endian data and Linux OS/ABI bytes at the
/// front; type `EXEC` and machine x86-64; the entry address; and the
/// segment count in the program-header-count field.
pub proof fn lemma_elf_file_header(b: BuilderView)
    ensures
        spec_elf_file(b).subrange(0, 8) == seq![0x7fu8, 0x45u8, 0x4cu8, 0x46u8, 2u8, 1u8, 1u8, 3u8],
        spec_elf_file(b).subrange(16, 18) == spec_u16_to_le_bytes(2),
        spec_elf_file(b).subrange(18, 20) == spec_u16_to_le_bytes(62),
        spec_elf_file(b).subrange(24, 32) == spec_u64_to_le_bytes(b.entrypoint),
        spec_elf_file(b).subrange(56, 58) == spec_u16_to_le_bytes(b.segments.len() as u16),
{
    lemma_auto_spec_u16_to_from_le_bytes();
    lemma_auto_spec_u32_to_from_le_bytes();
    lemma_auto_spec_u64_to_from_le_bytes();
    let h = spec_ehdr_bytes(b.entrypoint, 64, b.segments.len() as u16);
    lemma_ehdr_bytes_len(b.entrypoint, 64, b.segments.len() as u16);
    lemma_ph_table_len(b.segments, b.segments.len() as int);
    lemma_payloads_len(b.segments, b.segments.len() as int);
    lemma_payload_len_nonneg(b.segments, b.segments.len() as int);
    assert(spec_elf_file(b).subrange(0, 8) =~= h.subrange(0, 8));
    assert(spec_elf_file(b).subrange(16, 18) =~= h.subrange(16, 18));
    assert(spec_elf_file(b).subrange(18, 20) =~= h.subrange(18, 20));
    assert(spec_elf_file(b).subrange(24, 32) =~= h.subrange(24, 32));
    assert(spec_elf_file(b).subrange(56, 58) =~= h.subrange(56, 58));
    assert(h.subrange(0, 8) =~= seq![0x7fu8, 0x45u8, 0x4cu8, 0x46u8, 2u8, 1u8, 1u8, 3u8]);
    assert(h.subrange(16, 18) =~= spec_u16_to_le_bytes(2));
    assert(h.subrange(18, 20) =~= spec_u16_to_le_bytes(62));
    assert(h.subrange(24, 32) =~= spec_u64_to_le_bytes(b.entrypoint));
    assert(h.subrange(56, 58) =~= spec_u16_to_le_bytes(b.segments.len() as u16));
}

/// The executable-image builder: segments in insertion order plus the
/// entry address.
#[derive(Debug)]
pub struct ElfFileBuilder {
    segments: Vec<ElfFileSegment>,
    entrypoint: u64,
}

impl View for ElfFileBuilder {
    type V = BuilderView;

    closed spec fn view(&self) -> BuilderView {
        BuilderView {
            segments: Seq::new(self.segments@.len(), |i: int| self.segments@[i]@),
            entrypoint: self.entrypoint,
        }
    }
}

impl ElfFileBuilder {
    /// An empty image: no segments, entry address zero.
    pub fn new() -> (r: Self)
        ensures
            r@.segments == Seq::<SegView>::empty(),
            r@.entrypoint == 0,
    {
        let r = Self { segments: Vec::new(), entrypoint: 0 };
        proof {
            assert(r@.segments =~= Seq::<SegView>::empty());
        }
        r
    }

    /// Append an executable code segment (read + execute, 16-byte aligned).
    pub fn add_code_segment(&mut self, code: Vec<u8>, vaddr: u64)
        ensures
            final(self)@.segments == old(self)@.segments.push(
                (SegView {
                    flags: PH_FLAGS_RX,
                    memsz: code@.len() as u64,
                    data: code@,
                    vaddr,
                    align: 16,
                }),
            ),
            final(self)@.entrypoint == old(self)@.entrypoint,
    {
        let ghost d = code@;
        self.segments.push(
            ElfFileSegment {
                flags: PH_FLAGS_RX,
                memsz: code.len() as u64,
                data: code,
                vaddr,
                align: 16,
            },
        );
        proof {
            assert(final(self)@.segments =~= old(self)@.segments.push(
                (SegView { flags: PH_FLAGS_RX, memsz: d.len() as u64, data: d, vaddr, align: 16 }),
            ));
        }
    }

    /// Append a read-only data segment.
    pub fn add_rodata_segment(&mut self, data: Vec<u8>, vaddr: u64, align: u64)
        ensures
            final(self)@.segments == old(self)@.segments.push(
                (SegView {
                    flags: PH_FLAG_R,
                    memsz: data@.len() as u64,
                    data: data@,
                    vaddr,
                    align,
                }),
            ),
            final(self)@.entrypoint == old(self)@.entrypoint,
    {
        let ghost d = data@;
        self.segments.push(
            ElfFileSegment { flags: PH_FLAG_R, memsz: data.len() as u64, data, vaddr, align },
        );
        proof {
            assert(final(self)@.segments =~= old(self)@.segments.push(
                (SegView { flags: PH_FLAG_R, memsz: d.len() as u64, data: d, vaddr, align }),
            ));
        }
    }

    /// Append a writable data segment.
    pub fn add_data_segment(&mut self, data: Vec<u8>, vaddr: u64, align: u64)
        ensures
            final(self)@.segments == old(self)@.segments.push(
                (SegView {
                    flags: PH_FLAGS_RW,
                    memsz: data@.len() as u64,
                    data: data@,
                    vaddr,
                    align,
                }),
            ),
            final(self)@.entrypoint == old(self)@.entrypoint,
    {
        let ghost d = data@;
        self.segments.push(
            ElfFileSegment { flags: PH_FLAGS_RW, memsz: data.len() as u64, data, vaddr, align },
        );
        proof {
            assert(final(self)@.segments =~= old(self)@.segments.push(
                (SegView { flags: PH_FLAGS_RW, memsz: d.len() as u64, data: d, vaddr, align }),
            ));
        }
    }

    /// Append a zero-initialized segment: writable, no on-disk bytes, with
    /// an in-memory size of its own (the in-memory size of every other
    /// segment kind equals its on-disk size).
    pub fn add_unint_segment(&mut self, vaddr: u64, memsz: u64, align: u64)
        ensures
            final(self)@.segments == old(self)@.segments.push(
                (SegView {
                    flags: PH_FLAGS_RW,
                    memsz,
                    data: Seq::empty(),
                    vaddr,
                    align,
                }),
            ),
            final(self)@.entrypoint == old(self)@.entrypoint,
    {
        self.segments.push(
            ElfFileSegment { flags: PH_FLAGS_RW, data: Vec::new(), memsz, vaddr, align },
        );
        proof {
            assert(final(self)@.segments =~= old(self)@.segments.push(
                (SegView { flags: PH_FLAGS_RW, memsz, data: Seq::empty(), vaddr, align }),
            ));
        }
    }

    /// Record the virtual address the OS transfers control to.
    pub fn set_entrypoint(&mut self, entrypoint: u64)
        ensures
            final(self)@.entrypoint == entrypoint,
            final(self)@.segments == old(self)@.segments,
    {
        self.entrypoint = entrypoint;
        proof {
            assert(final(self)@.segments =~= old(self)@.segments);
        }
    }

    /// Assemble the image: the ELF header, one program header per segment
    /// (offsets computed by walking the segments in insertion order), then
    /// every payload. The result is fully determined by the builder state.
    pub fn build(self) -> (result: Vec<u8>)
        requires
            self@.segments.len() <= MAX_SEGMENTS,
            spec_seg_offset(self@.segments, self@.segments.len() as int) <= MAX_FILE_SIZE,
        ensures
            result@ == spec_elf_file(self@),
    {
        let ghost bview = self@;
        let ghost segs = bview.segments;
        let n = self.segments.len();
        let header = Elf64EHdr::new(self.entrypoint, 64, n as u16);
        let mut out: Vec<u8> = Vec::new();
        header.write_to(&mut out);
        let ghost head = spec_ehdr_bytes(bview.entrypoint, 64, segs.len() as u16);
        proof {
            lemma_payload_len_bounds(segs, 0, n as int);
            assert(out@ =~= head + spec_ph_table(segs, 0));
        }
        let mut p_off: u64 = 64 + 56 * (n as u64);
        let mut i: usize = 0;
        while i < n
            invariant
                i <= n,
                n == self.segments.len(),
                segs == self@.segments,
                segs.len() == n,
                bview.entrypoint == self@.entrypoint,
                segs.len() <= MAX_SEGMENTS,
                spec_seg_offset(segs, n as int) <= MAX_FILE_SIZE,
                p_off == spec_seg_offset(segs, i as int),
                out@ == head + spec_ph_table(segs, i as int),
            decreases n - i,
        {
            proof {
                lemma_payload_len_bounds(segs, 0, i as int);
                lemma_payload_len_bounds(segs, i as int, i as int + 1);
                lemma_payload_len_bounds(segs, i as int + 1, n as int);
            }
            let seg = &self.segments[i];
            let filesz = seg.data.len() as u64;
            let ph = PhEntry::new(p_off, seg.vaddr, filesz, seg.memsz, seg.flags, seg.align);
            ph.write_to(&mut out);
            proof {
                assert(out@ =~= head + spec_ph_table(segs, i as int + 1));
            }
            p_off = p_off + filesz;
            i = i + 1;
        }
        let ghost table = spec_ph_table(segs, n as int);
        let mut i: usize = 0;
        proof {
            assert(out@ =~= head + table + spec_payloads(segs, 0));
        }
        while i < n
            invariant
                i <= n,
                n == self.segments.len(),
                segs == self@.segments,
                segs.len() == n,
                out@ == head + table + spec_payloads(segs, i as int),
            decreases n - i,
        {
            let seg = &self.segments[i];
            let m = seg.data.len();
            let mut j: usize = 0;
            while j < m
                invariant
                    j <= m,
                    i < n,
                    n == self.segments.len(),
                    segs == self@.segments,
                    segs.len() == n,
                    m == seg.data@.len(),
                    seg == &self.segments[i as int],
                    out@ == head + table + spec_payloads(segs, i as int) + seg.data@.take(
                        j as int,
                    ),
                decreases m - j,
            {
                out.push(seg.data[j]);
                proof {
                    assert(head + table + spec_payloads(segs, i as int) + seg.data@.take(j as int)
                        + seq![seg.data@[j as int]] =~= head + table + spec_payloads(
                        segs,
                        i as int,
                    ) + seg.data@.take(j as int + 1));
                }
                j = j + 1;
            }
            proof {
                assert(seg.data@.take(m as int) =~= seg.data@);
                assert(head + table + spec_payloads(segs, i as int) + seg.data@ =~= head + table
                    + spec_payloads(segs, i as int + 1));
            }
            i = i + 1;
        }
        proof {
            assert(out@ =~= spec_elf_file(bview));
        }
        out
    }
}

} // verus!
