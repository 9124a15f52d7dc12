use file_info::pe::util::{get_pe_file_size, round_to_pe_sz_with_offset, safe_read};

#[test]
fn file_size_is_buffer_length() {
    assert_eq!(get_pe_file_size(&[]), 0);
    assert_eq!(get_pe_file_size(&[1, 2, 3]), 3);
}

#[test]
fn round_clamps_to_remaining_bytes() {
    let buf = [0u8; 10];
    assert_eq!(round_to_pe_sz_with_offset(&buf, 0, 10), 10);
    assert_eq!(round_to_pe_sz_with_offset(&buf, 0, 11), 10);
    assert_eq!(round_to_pe_sz_with_offset(&buf, 4, 100), 6);
    assert_eq!(round_to_pe_sz_with_offset(&buf, 10, 5), 0);
    assert_eq!(round_to_pe_sz_with_offset(&buf, 3, 2), 2);
}

#[test]
fn safe_read_past_the_end_is_empty() {
    let buf = [1u8, 2, 3];
    assert_eq!(safe_read(&buf, 3, 1), &[] as &[u8]);
    assert_eq!(safe_read(&buf, 100, 5), &[] as &[u8]);
}

#[test]
fn safe_read_clamps_oversized_reads() {
    let buf = [1u8, 2, 3, 4, 5];
    assert_eq!(safe_read(&buf, 3, 100), &[4u8, 5]);
    assert_eq!(safe_read(&buf, 0, 100), &buf);
}

#[test]
fn safe_read_exact_window() {
    let buf = [9u8, 8, 7, 6];
    assert_eq!(safe_read(&buf, 1, 2), &[8u8, 7]);
}
