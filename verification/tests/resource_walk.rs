use file_info::decoder::SectionHeaderRaw;
use file_info::pe::resource::{resource_id_to_type, Resources};

fn push_u16(buf: &mut Vec<u8>, v: u16) {
    buf.extend(v.to_le_bytes());
}

fn push_u32(buf: &mut Vec<u8>, v: u32) {
    buf.extend(v.to_le_bytes());
}

fn dir_header(buf: &mut Vec<u8>, named: u16, ids: u16) {
    push_u32(buf, 0); // characteristics
    push_u32(buf, 0x5F00_0000); // timestamp
    push_u16(buf, 4); // major
    push_u16(buf, 0); // minor
    push_u16(buf, named);
    push_u16(buf, ids);
}

fn rsrc_section(size: u32) -> Vec<SectionHeaderRaw> {
    vec![
        SectionHeaderRaw {
            name: b".rsrc\0\0\0".to_vec(),
            virtual_size: size,
            virtual_address: 0x1000,
            size_of_raw_data: size,
            pointer_to_raw_data: 0,
            characteristics: 0x40000040,
        },
    ]
}

#[test]
fn absent_directory_yields_no_report() {
    let r = Resources::parse(&[], &rsrc_section(0x100), None);
    assert!(r.is_none());
}

#[test]
fn untranslatable_directory_yields_no_report() {
    let r = Resources::parse(&[0u8; 64], &rsrc_section(0x100), Some((0x9000, 0x40)));
    assert!(r.is_none());
}

#[test]
fn one_icon_leaf_walks_and_translates() {
    // the resource directory sits at the start of the file, mapped at
    // RVA 0x1000 by the single section
    let mut b: Vec<u8> = Vec::new();
    // root directory: one id entry, type 3 (icon), subdirectory at 0x18
    dir_header(&mut b, 0, 1);
    push_u32(&mut b, 3);
    push_u32(&mut b, 0x8000_0018);
    // level-two directory at 0x18: one id entry, id 5, subdirectory at 0x30
    dir_header(&mut b, 0, 1);
    push_u32(&mut b, 5);
    push_u32(&mut b, 0x8000_0030);
    // level-three directory at 0x30: one id entry, language 1033,
    // data entry at 0x48
    dir_header(&mut b, 0, 1);
    push_u32(&mut b, 1033);
    push_u32(&mut b, 0x48);
    // data entry at 0x48: data at RVA 0x1060, 8 bytes
    push_u32(&mut b, 0x1060);
    push_u32(&mut b, 8);
    push_u32(&mut b, 0);
    push_u32(&mut b, 0);
    while b.len() < 0x80 {
        b.push(0xEE);
    }
    let res = Resources::parse(&b, &rsrc_section(0x80), Some((0x1000, 0x80))).unwrap();
    assert_eq!(res.major_version, 4);
    assert_eq!(res.minor_version, 0);
    assert_eq!(res.number_of_named_entries, 0);
    assert_eq!(res.number_of_id_entries, 1);
    assert_eq!(res.timestamp, 0x5F00_0000);
    assert_eq!(res.resources.len(), 1);
    let e = &res.resources[0];
    assert_eq!(e.resource_type, "Icon");
    assert_eq!(e.offset, Some(3));
    assert_eq!(e.resource_id, "ID(5)");
    assert_eq!(e.language_id, "ID(1033)");
    assert_eq!(e.data_start, Some(0x60));
    assert_eq!(e.data_end, Some(0x68));
}

#[test]
fn named_type_passes_the_name_through() {
    let mut b: Vec<u8> = Vec::new();
    // root: one named entry, name at 0x18 (bit 31 set), subdirectory at 0x20
    dir_header(&mut b, 1, 0);
    push_u32(&mut b, 0x8000_0018);
    push_u32(&mut b, 0x8000_0020);
    // name string at 0x18: 3 units, "APP"
    push_u16(&mut b, 3);
    push_u16(&mut b, 0x41);
    push_u16(&mut b, 0x50);
    push_u16(&mut b, 0x50);
    // level-two directory at 0x20: id 1, subdirectory at 0x38
    dir_header(&mut b, 0, 1);
    push_u32(&mut b, 1);
    push_u32(&mut b, 0x8000_0038);
    // level-three directory at 0x38: language 0, data entry at 0x50
    dir_header(&mut b, 0, 1);
    push_u32(&mut b, 0);
    push_u32(&mut b, 0x50);
    // data entry at 0x50: untranslatable address
    push_u32(&mut b, 0x9999_0000);
    push_u32(&mut b, 4);
    push_u32(&mut b, 0);
    push_u32(&mut b, 0);
    let res = Resources::parse(&b, &rsrc_section(0x80), Some((0x1000, 0x80))).unwrap();
    assert_eq!(res.resources.len(), 1);
    let e = &res.resources[0];
    assert_eq!(e.resource_type, "APP");
    assert_eq!(e.offset, None);
    assert_eq!(e.resource_id, "ID(1)");
    assert_eq!(e.language_id, "ID(0)");
    // translation failed, the walk went on
    assert_eq!(e.data_start, None);
    assert_eq!(e.data_end, None);
}

#[test]
fn self_referential_directory_terminates() {
    // a directory whose only entry is a subdirectory pointing back at
    // itself, at every level
    let mut b: Vec<u8> = Vec::new();
    dir_header(&mut b, 0, 1);
    push_u32(&mut b, 7);
    push_u32(&mut b, 0x8000_0000); // subdirectory at offset 0: itself
    let res = Resources::parse(&b, &rsrc_section(0x20), Some((0x1000, 0x20))).unwrap();
    // the bounded walk ends; the cyclic shape yields no leaves
    assert_eq!(res.resources.len(), 0);
}

#[test]
fn oversized_entry_counts_stay_bounded() {
    let mut b: Vec<u8> = Vec::new();
    // a directory claiming the maximum entry counts, with no bytes behind
    dir_header(&mut b, 0xFFFF, 0xFFFF);
    let res = Resources::parse(&b, &rsrc_section(0x10), Some((0x1000, 0x10))).unwrap();
    assert_eq!(res.resources.len(), 0);
}

#[test]
fn type_table_resolves_known_ids() {
    assert_eq!(resource_id_to_type(1), "Cursor");
    assert_eq!(resource_id_to_type(3), "Icon");
    assert_eq!(resource_id_to_type(10), "RCData");
    assert_eq!(resource_id_to_type(16), "Version");
    assert_eq!(resource_id_to_type(24), "Manifest");
    assert_eq!(resource_id_to_type(25), "Unknown");
    assert_eq!(resource_id_to_type(0), "Unknown");
}
