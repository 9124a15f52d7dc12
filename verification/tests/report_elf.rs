use file_info::elf::{Endianness, Header, Identifier};
use file_info::decoder::ElfHeaderRaw;
use file_info::error::Error;
use file_info::get_extended_information;

fn push16(b: &mut Vec<u8>, v: u16) {
    b.extend(v.to_le_bytes());
}

fn push32(b: &mut Vec<u8>, v: u32) {
    b.extend(v.to_le_bytes());
}

fn push64(b: &mut Vec<u8>, v: u64) {
    b.extend(v.to_le_bytes());
}

fn shdr(
    b: &mut Vec<u8>,
    sh_type: u32,
    offset: u64,
    size: u64,
    link: u32,
    info: u32,
    entsize: u64,
) {
    push32(b, 0); // sh_name
    push32(b, sh_type);
    push64(b, 0); // sh_flags
    push64(b, 0); // sh_addr
    push64(b, offset);
    push64(b, size);
    push32(b, link);
    push32(b, info);
    push64(b, 1); // sh_addralign
    push64(b, entsize);
}

fn phdr(b: &mut Vec<u8>, p_type: u32, flags: u32, offset: u64, size: u64, align: u64) {
    push32(b, p_type);
    push32(b, flags);
    push64(b, offset); // p_offset
    push64(b, offset); // p_vaddr: identity mapping
    push64(b, offset); // p_paddr
    push64(b, size); // p_filesz
    push64(b, size); // p_memsz
    push64(b, align);
}

/// A minimal ELF64 with one dynamic symbol `printf@@GLIBC_2.2.5`, flagged
/// imported (global bind, no value) and function-typed.  The dynamic
/// segment maps addresses one to one onto file offsets.
fn minimal_elf64() -> Vec<u8> {
    let mut b: Vec<u8> = Vec::new();
    // identification: ELF magic, 64-bit class, little-endian, version 1
    b.extend(&[0x7F, 0x45, 0x4C, 0x46, 2, 1, 1, 0]);
    b.extend(&[0u8; 8]);
    push16(&mut b, 2); // e_type: executable
    push16(&mut b, 0x3E); // e_machine: x86-64
    push32(&mut b, 1); // e_version
    push64(&mut b, 0x401000); // e_entry
    push64(&mut b, 64); // e_phoff
    push64(&mut b, 176); // e_shoff
    push32(&mut b, 0); // e_flags
    push16(&mut b, 64); // e_ehsize
    push16(&mut b, 56); // e_phentsize
    push16(&mut b, 2); // e_phnum
    push16(&mut b, 64); // e_shentsize
    push16(&mut b, 3); // e_shnum
    push16(&mut b, 0); // e_shstrndx
    // program headers at 64: a whole-file load and the dynamic segment
    phdr(&mut b, 1, 5, 0, 557, 0x1000);
    phdr(&mut b, 2, 4, 368, 96, 8);
    // section headers at 176
    b.extend(&[0u8; 64]); // null section
    shdr(&mut b, 11, 488, 48, 2, 1, 24); // .dynsym
    shdr(&mut b, 3, 536, 21, 0, 0, 0); // .dynstr
    // dynamic entries at 368: symtab, strtab, strsz, syment, hash, null
    for (tag, val) in [(6u64, 488u64), (5, 536), (10, 21), (11, 24), (4, 464), (0, 0)] {
        push64(&mut b, tag);
        push64(&mut b, val);
    }
    // hash table at 464: one bucket, two chain entries
    push32(&mut b, 1);
    push32(&mut b, 2);
    push32(&mut b, 0);
    push32(&mut b, 0);
    push32(&mut b, 0);
    // pad to the symbol table at 488
    while b.len() < 488 {
        b.push(0);
    }
    // dynamic symbols at 488: the null symbol, then printf
    b.extend(&[0u8; 24]);
    push32(&mut b, 1); // st_name
    b.push(0x12); // st_info: global, function
    b.push(0); // st_other
    push16(&mut b, 0); // st_shndx: undefined
    push64(&mut b, 0); // st_value
    push64(&mut b, 0); // st_size
    // dynamic string table at 536
    b.extend(b"\0printf@@GLIBC_2.2.5\0");
    b
}

#[test]
fn minimal_elf_report_has_one_versioned_import() {
    let rep = get_extended_information(&minimal_elf64()).unwrap();
    let imports = rep.imports.unwrap();
    assert_eq!(imports.modules.len(), 1);
    assert_eq!(imports.modules[0].name, "GLIBC_2.2.5");
    assert_eq!(imports.modules[0].imports.len(), 1);
    assert_eq!(imports.modules[0].imports[0].name, "printf");
    assert!(!imports.modules[0].imports[0].import_by_ordinal);
    // the PE-only fields stay absent for an ELF
    assert!(rep.signature.is_none());
    assert!(rep.resources.is_none());
    assert!(rep.tls_callbacks.is_none());
    let ep = rep.entry_point.unwrap();
    assert_eq!(ep.address, 0x401000);
    assert!(ep.section.is_none());
    let table = rep.section_table.unwrap();
    assert_eq!(table.sections.len(), 3);
    assert!(table.sections[0].data.is_empty());
    assert_eq!(table.sections[0].entropy, None);
}

#[test]
fn elf_header_decodes_class_and_byte_order() {
    let raw = ElfHeaderRaw {
        entry: 0x401000,
        version: 1,
        e_type: 2,
        class: 2,
        encoding: 1,
        phnum: 0,
        phoff: 0,
        phentsize: 0,
        shnum: 3,
        shoff: 64,
        shentsize: 64,
    };
    let h = Header::from_raw(&raw).unwrap();
    assert_eq!(h.ident, Identifier::Elf64);
    assert_eq!(h.endianness, Endianness::Little);
    assert_eq!(h.kind, "2");
    assert_eq!(h.version, 1);
    assert_eq!(h.section_headers_count, 3);
}

#[test]
fn unknown_elf_class_is_an_invalid_identifier() {
    let raw = ElfHeaderRaw {
        entry: 0,
        version: 1,
        e_type: 2,
        class: 9,
        encoding: 1,
        phnum: 0,
        phoff: 0,
        phentsize: 0,
        shnum: 0,
        shoff: 0,
        shentsize: 0,
    };
    assert_eq!(Header::from_raw(&raw), Err(Error::InvalidIdentifier));
}

#[test]
fn unknown_elf_byte_order_is_invalid_endianness() {
    let raw = ElfHeaderRaw {
        entry: 0,
        version: 1,
        e_type: 2,
        class: 1,
        encoding: 9,
        phnum: 0,
        phoff: 0,
        phentsize: 0,
        shnum: 0,
        shoff: 0,
        shentsize: 0,
    };
    assert_eq!(Header::from_raw(&raw), Err(Error::InvalidEndianness));
}

#[test]
fn damaged_elf_is_reported_as_structurally_broken() {
    let mut b = minimal_elf64();
    b.truncate(40); // cut inside the header
    let r = get_extended_information(&b);
    assert!(matches!(r, Err(Error::GoblinError(_))));
}
