use file_info::decoder::{ElfSectionRaw, SectionHeaderRaw};
use file_info::entry_point::EntryPoint;
use file_info::error::Error;
use file_info::sections::{characteristics_string, SectionTable};

fn header(name: &[u8], va: u32, vs: u32, raw: u32, rs: u32, flags: u32) -> SectionHeaderRaw {
    let mut n = name.to_vec();
    while n.len() < 8 {
        n.push(0);
    }
    SectionHeaderRaw {
        name: n,
        virtual_size: vs,
        virtual_address: va,
        size_of_raw_data: rs,
        pointer_to_raw_data: raw,
        characteristics: flags,
    }
}

#[test]
fn pe_section_reads_clamped_bytes_and_scores_entropy() {
    let buf: Vec<u8> = (0..16u8).collect();
    let headers = vec![header(b".text", 0x1000, 0x100, 8, 100, 0x60000020)];
    let t = SectionTable::from_pe_headers(&headers, &buf).unwrap();
    assert_eq!(t.sections.len(), 1);
    let s = &t.sections[0];
    assert_eq!(s.name, ".text");
    assert_eq!(s.virt_addr, 0x1000);
    assert_eq!(s.virt_size, 0x100);
    assert_eq!(s.raw_addr, 8);
    assert_eq!(s.raw_size, 100);
    // declared 100 bytes, but only 8 remain in the file
    assert_eq!(s.data, vec![8u8, 9, 10, 11, 12, 13, 14, 15]);
    assert_eq!(s.entropy, Some(3000));
    assert_eq!(
        s.characteristics.as_deref(),
        Some("60000020 (CNT_CODE | MEM_EXECUTE | MEM_READ)"),
    );
}

#[test]
fn pe_section_name_that_is_not_utf8_is_a_hard_failure() {
    let headers = vec![header(&[0xFF, 0xFE, b'x'], 0, 0, 0, 0, 0)];
    let r = SectionTable::from_pe_headers(&headers, &[]);
    assert_eq!(r, Err(Error::Encoding));
}

#[test]
fn pe_section_past_the_file_has_no_bytes() {
    let headers = vec![header(b".bss", 0x2000, 0x100, 0x5000, 0x100, 0xC0000080)];
    let t = SectionTable::from_pe_headers(&vec![headers[0].clone()], &[0u8; 16]).unwrap();
    assert_eq!(t.sections[0].data.len(), 0);
    assert_eq!(t.sections[0].entropy, Some(0));
}

#[test]
fn characteristics_of_zero_keep_the_numeric_value() {
    assert_eq!(characteristics_string(0), "0 ()");
    // an unknown bit is preserved numerically in the hex prefix
    assert_eq!(characteristics_string(0x00010000), "10000 ()");
    assert_eq!(characteristics_string(0xE0000060), "E0000060 (CNT_CODE | CNT_INITIALIZED_DATA | MEM_EXECUTE | MEM_READ | MEM_WRITE)");
}

#[test]
fn elf_sections_carry_no_bytes_and_no_entropy() {
    let headers = vec![
        ElfSectionRaw { sh_name: 27, sh_addr: 0x400000, sh_size: 0x80, sh_offset: 0x200 },
    ];
    let t = SectionTable::from_elf_headers(&headers);
    let s = &t.sections[0];
    assert_eq!(s.name, "27");
    assert_eq!(s.virt_addr, 0x400000);
    assert_eq!(s.virt_size, 0x80);
    assert_eq!(s.raw_addr, 0x200);
    assert_eq!(s.raw_size, 0x80);
    assert!(s.data.is_empty());
    assert_eq!(s.entropy, None);
    assert_eq!(s.characteristics, None);
}

#[test]
fn entry_point_resolves_to_first_containing_section() {
    let headers = vec![
        header(b".text", 0x1000, 0x100, 0, 0, 0),
        header(b".data", 0x1080, 0x100, 0, 0, 0),
    ];
    let t = SectionTable::from_pe_headers(&headers, &[]).unwrap();
    // both sections contain the address; the first declared one wins
    let ep = EntryPoint::resolve(0x1090, &t);
    assert_eq!(ep.address, 0x1090);
    assert_eq!(ep.section.as_ref().unwrap().name, ".text");
}

#[test]
fn entry_point_outside_every_section_has_none() {
    let headers = vec![header(b".text", 0x1000, 0x100, 0, 0, 0)];
    let t = SectionTable::from_pe_headers(&headers, &[]).unwrap();
    let ep = EntryPoint::resolve(0x1100, &t);
    assert_eq!(ep.address, 0x1100);
    assert!(ep.section.is_none());
    let ep2 = EntryPoint::resolve(0xFFF, &t);
    assert!(ep2.section.is_none());
}
