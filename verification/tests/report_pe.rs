use file_info::error::Error;
use file_info::get_extended_information;

fn push16(b: &mut Vec<u8>, v: u16) {
    b.extend(v.to_le_bytes());
}

fn push32(b: &mut Vec<u8>, v: u32) {
    b.extend(v.to_le_bytes());
}

fn push64(b: &mut Vec<u8>, v: u64) {
    b.extend(v.to_le_bytes());
}

/// A minimal PE32+ image: one `.text` section containing the entry point
/// and holding `text` as raw bytes, with optional resource and TLS data
/// directories; no imports and no attribute certificates.
fn build_pe64(rsrc: Option<(u32, u32)>, tls: Option<(u32, u32)>, text: &[u8]) -> Vec<u8> {
    let mut b = vec![0u8; 0x40];
    b[0] = b'M';
    b[1] = b'Z';
    b[0x3C..0x40].copy_from_slice(&0x40u32.to_le_bytes());
    b.extend(b"PE\0\0");
    // COFF header
    push16(&mut b, 0x8664);
    push16(&mut b, 1);
    push32(&mut b, 0);
    push32(&mut b, 0);
    push32(&mut b, 0);
    push16(&mut b, 240);
    push16(&mut b, 0x0022);
    // optional header, PE32+
    push16(&mut b, 0x20B);
    b.push(14);
    b.push(0);
    push32(&mut b, 0x200); // size of code
    push32(&mut b, 0);
    push32(&mut b, 0);
    push32(&mut b, 0x1010); // entry point
    push32(&mut b, 0x1000); // base of code
    push64(&mut b, 0x140000000); // image base
    push32(&mut b, 0x1000); // section alignment
    push32(&mut b, 0x200); // file alignment
    push16(&mut b, 6);
    push16(&mut b, 0);
    push16(&mut b, 0);
    push16(&mut b, 0);
    push16(&mut b, 6);
    push16(&mut b, 0);
    push32(&mut b, 0);
    push32(&mut b, 0x2000); // size of image
    push32(&mut b, 0x200); // size of headers
    push32(&mut b, 0);
    push16(&mut b, 3); // console subsystem
    push16(&mut b, 0);
    push64(&mut b, 0x100000);
    push64(&mut b, 0x1000);
    push64(&mut b, 0x100000);
    push64(&mut b, 0x1000);
    push32(&mut b, 0);
    push32(&mut b, 16);
    for i in 0..16 {
        let dir = match i {
            2 => rsrc,
            9 => tls,
            _ => None,
        };
        let (va, size) = dir.unwrap_or((0, 0));
        push32(&mut b, va);
        push32(&mut b, size);
    }
    // one section header
    b.extend(b".text\0\0\0");
    push32(&mut b, 0x100); // virtual size
    push32(&mut b, 0x1000); // virtual address
    push32(&mut b, 0x200); // raw size
    push32(&mut b, 0x200); // raw pointer
    push32(&mut b, 0);
    push32(&mut b, 0);
    push16(&mut b, 0);
    push16(&mut b, 0);
    push32(&mut b, 0x60000020);
    while b.len() < 0x200 {
        b.push(0);
    }
    b.extend(text);
    while b.len() < 0x400 {
        b.push(0x90);
    }
    b
}

fn minimal_pe64() -> Vec<u8> {
    build_pe64(None, None, &[])
}

/// The `.text` payload for the directory-bearing image: a one-leaf
/// resource directory at RVA 0x1000 and a 64-bit TLS directory at 0x1080
/// whose callback array at 0x10B0 holds one entry.
fn directories_text() -> Vec<u8> {
    let mut t: Vec<u8> = Vec::new();
    // resource root: one id entry, type 3 (icon), subdirectory at 0x18
    push32(&mut t, 0);
    push32(&mut t, 0x11223344);
    push16(&mut t, 4);
    push16(&mut t, 0);
    push16(&mut t, 0);
    push16(&mut t, 1);
    push32(&mut t, 3);
    push32(&mut t, 0x8000_0018);
    // level-two directory at 0x18: id 5, subdirectory at 0x30
    t.extend(&[0u8; 12]);
    push16(&mut t, 0);
    push16(&mut t, 1);
    push32(&mut t, 5);
    push32(&mut t, 0x8000_0030);
    // level-three directory at 0x30: language 1033, data entry at 0x48
    t.extend(&[0u8; 12]);
    push16(&mut t, 0);
    push16(&mut t, 1);
    push32(&mut t, 1033);
    push32(&mut t, 0x48);
    // data entry at 0x48: payload at RVA 0x1060, 8 bytes
    push32(&mut t, 0x1060);
    push32(&mut t, 8);
    push32(&mut t, 0);
    push32(&mut t, 0);
    while t.len() < 0x60 {
        t.push(0);
    }
    t.extend(&[0xABu8; 8]);
    while t.len() < 0x80 {
        t.push(0);
    }
    // TLS directory at 0x80: the callback-array field at offset 24 holds
    // the virtual address of the array at RVA 0x10B0
    t.extend(&[0u8; 24]);
    push64(&mut t, 0x1_4000_10B0);
    t.extend(&[0u8; 8]);
    while t.len() < 0xB0 {
        t.push(0);
    }
    push64(&mut t, 0x1_4000_1050);
    push64(&mut t, 0);
    t
}

#[test]
fn resource_and_tls_directories_flow_into_the_report() {
    let image = build_pe64(Some((0x1000, 0x80)), Some((0x1080, 0x28)), &directories_text());
    let rep = get_extended_information(&image).unwrap();
    let res = rep.resources.unwrap();
    assert_eq!(res.major_version, 4);
    assert_eq!(res.number_of_id_entries, 1);
    assert_eq!(res.timestamp, 0x11223344);
    assert_eq!(res.resources.len(), 1);
    let e = &res.resources[0];
    assert_eq!(e.resource_type, "Icon");
    assert_eq!(e.offset, Some(3));
    assert_eq!(e.resource_id, "ID(5)");
    assert_eq!(e.language_id, "ID(1033)");
    // RVA 0x1060 maps through the section at RVA 0x1000 / offset 0x200
    assert_eq!(e.data_start, Some(0x260));
    assert_eq!(e.data_end, Some(0x268));
    let tls = rep.tls_callbacks.unwrap();
    assert_eq!(tls.callbacks, vec![0x1_4000_1050]);
}

#[test]
fn unrecognized_identification_is_an_unsupported_file_type() {
    // the first four bytes match neither the PE nor the ELF identification
    assert_eq!(
        get_extended_information(&[0xCA, 0xFE, 0xBA, 0xBE]),
        Err(Error::UnsupportedFileType),
    );
    assert_eq!(get_extended_information(&[]), Err(Error::UnsupportedFileType));
    assert_eq!(get_extended_information(b"#!/bin/sh\n"), Err(Error::UnsupportedFileType));
}

#[test]
fn minimal_pe_report_has_the_expected_fields() {
    let rep = get_extended_information(&minimal_pe64()).unwrap();
    let ep = rep.entry_point.unwrap();
    assert_eq!(ep.address, 0x1010);
    let sec = ep.section.unwrap();
    assert_eq!(sec.name, ".text");
    assert_eq!(sec.virt_addr, 0x1000);
    assert_eq!(sec.raw_addr, 0x200);
    assert_eq!(sec.data.len(), 0x200);
    assert_eq!(sec.entropy, Some(0)); // the section is constant filler
    let imports = rep.imports.unwrap();
    assert_eq!(imports.modules.len(), 0);
    assert!(rep.resources.is_none());
    let tls = rep.tls_callbacks.unwrap();
    assert!(tls.callbacks.is_empty());
    let sig = rep.signature.unwrap();
    assert!(sig.signatures.is_empty());
    let table = rep.section_table.unwrap();
    assert_eq!(table.sections.len(), 1);
    assert_eq!(
        table.sections[0].characteristics.as_deref(),
        Some("60000020 (CNT_CODE | MEM_EXECUTE | MEM_READ)"),
    );
}

#[test]
fn damaged_pe_is_reported_as_structurally_broken() {
    // the MZ signature is there, but nothing behind it decodes
    let mut b = vec![0u8; 0x40];
    b[0] = b'M';
    b[1] = b'Z';
    b[0x3C..0x40].copy_from_slice(&0x40u32.to_le_bytes());
    let r = get_extended_information(&b);
    assert!(matches!(r, Err(Error::GoblinError(_))));
}
