use file_info::text::{decode_utf16_units, to_lowercase, u64_to_decimal, u64_to_hex_upper};

#[test]
fn decimal_rendering() {
    assert_eq!(u64_to_decimal(0), "0");
    assert_eq!(u64_to_decimal(7), "7");
    assert_eq!(u64_to_decimal(1033), "1033");
    assert_eq!(u64_to_decimal(u64::MAX), "18446744073709551615");
}

#[test]
fn hex_rendering_upper_case() {
    assert_eq!(u64_to_hex_upper(0), "0");
    assert_eq!(u64_to_hex_upper(0x60000020), "60000020");
    assert_eq!(u64_to_hex_upper(0xDEADBEEF), "DEADBEEF");
    assert_eq!(u64_to_hex_upper(15), "F");
}

#[test]
fn lowercase_folds_ascii_letters_only() {
    assert_eq!(to_lowercase("KERNEL32.DLL"), "kernel32.dll");
    assert_eq!(to_lowercase("User32.dll"), "user32.dll");
    assert_eq!(to_lowercase("abc-123"), "abc-123");
    assert_eq!(to_lowercase("Grüße"), "grüße");
}

#[test]
fn utf16_decoding_handles_pairs_and_rejects_lone_surrogates() {
    assert_eq!(decode_utf16_units(&vec![]), Some(String::new()));
    assert_eq!(decode_utf16_units(&vec![0x0041, 0x0042]), Some(String::from("AB")));
    // one supplementary-plane character as a surrogate pair
    assert_eq!(decode_utf16_units(&vec![0xD83D, 0xDE00]), Some(String::from("\u{1F600}")));
    assert_eq!(decode_utf16_units(&vec![0xD83D]), None);
    assert_eq!(decode_utf16_units(&vec![0xDE00, 0x41]), None);
}
