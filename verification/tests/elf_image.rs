use elfgen::elf::{Elf64EHdr, Elf64Ident, ElfFileBuilder, PhEntry, EHDR_SIZE, PH_ENTRY_SIZE};

fn le64(x: u64) -> Vec<u8> {
    let mut out = Vec::new();
    for i in 0..8 {
        out.push(((x >> (8 * i)) & 0xff) as u8);
    }
    out
}

fn le16(x: u16) -> Vec<u8> {
    vec![(x & 0xff) as u8, (x >> 8) as u8]
}

#[test]
fn ident_bytes_name_a_64_bit_little_endian_linux_image() {
    let ident = Elf64Ident::new();
    let mut out: Vec<u8> = Vec::new();
    ident.write_to(&mut out);
    assert_eq!(
        out,
        vec![0x7f, 0x45, 0x4c, 0x46, 2, 1, 1, 3, 0, 0, 0, 0, 0, 0, 0, 0]
    );
}

#[test]
fn elf_header_is_64_bytes_with_the_given_fields() {
    let hdr = Elf64EHdr::new(0x1003c, 64, 2);
    let mut out: Vec<u8> = Vec::new();
    hdr.write_to(&mut out);
    assert_eq!(out.len(), 64);
    assert_eq!(&out[0..4], &[0x7f, 0x45, 0x4c, 0x46]);
    assert_eq!(&out[16..18], le16(2).as_slice()); // EXEC
    assert_eq!(&out[18..20], le16(62).as_slice()); // x86-64
    assert_eq!(&out[24..32], le64(0x1003c).as_slice()); // entry
    assert_eq!(&out[32..40], le64(64).as_slice()); // program-header offset
    assert_eq!(&out[52..54], le16(64).as_slice()); // header size
    assert_eq!(&out[54..56], le16(56).as_slice()); // ph entry size
    assert_eq!(&out[56..58], le16(2).as_slice()); // ph count
    assert_eq!(&out[60..62], le16(0).as_slice()); // no section headers
}

#[test]
fn program_header_entry_is_56_bytes_with_offset_at_byte_8() {
    let ph = PhEntry::new(176, 0x10000, 87, 87, 0x5, 16);
    let mut out: Vec<u8> = Vec::new();
    ph.write_to(&mut out);
    assert_eq!(out.len(), 56);
    assert_eq!(&out[0..4], &[1, 0, 0, 0]); // PT_LOAD
    assert_eq!(&out[4..8], &[5, 0, 0, 0]); // flags R+X
    assert_eq!(&out[8..16], le64(176).as_slice()); // file offset
    assert_eq!(&out[16..24], le64(0x10000).as_slice()); // virtual address
    assert_eq!(&out[40..48], le64(87).as_slice()); // in-memory size
    assert_eq!(&out[48..56], le64(16).as_slice()); // alignment
}

#[test]
fn header_sizes_add_up_to_the_first_payload_offset() {
    // Three segments with payloads of 5, 0 and 7 bytes.
    let mut b = ElfFileBuilder::new();
    b.set_entrypoint(0x400000);
    b.add_code_segment(vec![1, 2, 3, 4, 5], 0x400000);
    b.add_unint_segment(0x500000, 0x1000, 8);
    b.add_rodata_segment(vec![9, 9, 9, 9, 9, 9, 9], 0x600000, 4);
    let out = b.build();

    let first_payload = (EHDR_SIZE + 3 * PH_ENTRY_SIZE) as usize;
    assert_eq!(out.len(), first_payload + 5 + 0 + 7);

    // Each program header records exactly the offset its payload sits at.
    let offsets = [first_payload as u64, (first_payload + 5) as u64, (first_payload + 5) as u64];
    for (i, off) in offsets.iter().enumerate() {
        let field = EHDR_SIZE as usize + PH_ENTRY_SIZE as usize * i + 8;
        assert_eq!(&out[field..field + 8], le64(*off).as_slice());
    }

    // And the payloads really are there.
    assert_eq!(&out[first_payload..first_payload + 5], &[1, 2, 3, 4, 5]);
    assert_eq!(&out[first_payload + 5..], &[9, 9, 9, 9, 9, 9, 9]);

    // The zero-initialized segment has no file bytes but a memory size.
    let uninit = 64 + 56;
    assert_eq!(&out[uninit + 32..uninit + 40], le64(0).as_slice()); // file size
    assert_eq!(&out[uninit + 40..uninit + 48], le64(0x1000).as_slice()); // memory size
    assert_eq!(&out[uninit + 4..uninit + 8], &[6, 0, 0, 0]); // flags R+W
}

#[test]
fn identical_builders_produce_identical_files() {
    let make = || {
        let mut b = ElfFileBuilder::new();
        b.set_entrypoint(0x10040);
        b.add_code_segment(vec![0xc3], 0x10000);
        b.add_rodata_segment(vec![b'h', b'i', 0], 0x11000, 4);
        b.build()
    };
    assert_eq!(make(), make());
}
