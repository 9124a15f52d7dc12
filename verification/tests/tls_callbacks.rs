use file_info::decoder::SectionHeaderRaw;
use file_info::pe::tls::TlsCallbacks;

fn section(va: u32, size: u32) -> Vec<SectionHeaderRaw> {
    vec![
        SectionHeaderRaw {
            name: b".data\0\0\0".to_vec(),
            virtual_size: size,
            virtual_address: va,
            size_of_raw_data: size,
            pointer_to_raw_data: 0,
            characteristics: 0xC0000040,
        },
    ]
}

#[test]
fn absent_directory_means_no_callbacks() {
    let r = TlsCallbacks::parse(&[0u8; 64], &section(0x1000, 0x40), None, 0x400000, true);
    assert!(r.callbacks.is_empty());
}

#[test]
fn sixty_four_bit_callbacks_are_read_until_the_zero_entry() {
    // TLS directory at RVA 0x1000 (file offset 0); its callback-array
    // address field (offset 24) holds VA image_base + 0x1040
    let mut b = vec![0u8; 0x60];
    b[24..32].copy_from_slice(&(0x400000u64 + 0x1040).to_le_bytes());
    // the callback array at file offset 0x40: two callbacks, then zero
    b[0x40..0x48].copy_from_slice(&0x401111u64.to_le_bytes());
    b[0x48..0x50].copy_from_slice(&0x402222u64.to_le_bytes());
    let r = TlsCallbacks::parse(&b, &section(0x1000, 0x60), Some((0x1000, 0x28)), 0x400000, true);
    assert_eq!(r.callbacks, vec![0x401111, 0x402222]);
}

#[test]
fn thirty_two_bit_callbacks_are_widened() {
    // the 32-bit layout keeps the callback-array address at offset 12
    let mut b = vec![0u8; 0x50];
    b[12..16].copy_from_slice(&(0x400000u32 + 0x1030).to_le_bytes());
    b[0x30..0x34].copy_from_slice(&0x401234u32.to_le_bytes());
    let r = TlsCallbacks::parse(&b, &section(0x1000, 0x50), Some((0x1000, 0x18)), 0x400000, false);
    assert_eq!(r.callbacks, vec![0x401234u64]);
}

#[test]
fn truncated_callback_array_keeps_the_readable_prefix() {
    let mut b = vec![0u8; 0x48];
    b[24..32].copy_from_slice(&(0x400000u64 + 0x1040).to_le_bytes());
    b[0x40..0x48].copy_from_slice(&0x409999u64.to_le_bytes());
    // the next slot lies past the end of the file
    let r = TlsCallbacks::parse(&b, &section(0x1000, 0x48), Some((0x1000, 0x28)), 0x400000, true);
    assert_eq!(r.callbacks, vec![0x409999]);
}

#[test]
fn callback_address_below_the_image_base_means_no_callbacks() {
    let mut b = vec![0u8; 0x40];
    b[24..32].copy_from_slice(&0x1000u64.to_le_bytes());
    let r = TlsCallbacks::parse(&b, &section(0x1000, 0x40), Some((0x1000, 0x28)), 0x400000, true);
    assert!(r.callbacks.is_empty());
}

#[test]
fn untranslatable_directory_means_no_callbacks() {
    let r = TlsCallbacks::parse(&[0u8; 64], &section(0x1000, 0x40), Some((0x8000, 0x28)), 0, true);
    assert!(r.callbacks.is_empty());
}
