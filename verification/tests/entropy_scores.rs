use file_info::entropy::shannon_entropy_mbits;

#[test]
fn empty_input_scores_zero() {
    assert_eq!(shannon_entropy_mbits(&[]), 0);
}

#[test]
fn all_zero_slices_score_zero_at_any_length() {
    assert_eq!(shannon_entropy_mbits(&[0u8]), 0);
    assert_eq!(shannon_entropy_mbits(&vec![0u8; 17]), 0);
    assert_eq!(shannon_entropy_mbits(&vec![0u8; 4096]), 0);
    assert_eq!(shannon_entropy_mbits(&vec![0u8; 100000]), 0);
}

#[test]
fn constant_nonzero_slices_score_zero() {
    assert_eq!(shannon_entropy_mbits(&vec![0xABu8; 333]), 0);
}

#[test]
fn exactly_uniform_distribution_scores_eight_bits() {
    let buf: Vec<u8> = (0..4096u32).map(|i| (i % 256) as u8).collect();
    assert_eq!(shannon_entropy_mbits(&buf), 8000);
}

#[test]
fn pseudo_random_large_slice_scores_close_to_eight_bits() {
    // a linear congruential generator stands in for random bytes
    let mut state: u64 = 0x853c49e6748fea9b;
    let mut buf: Vec<u8> = Vec::with_capacity(65536);
    for _ in 0..65536 {
        state = state.wrapping_mul(6364136223846793005).wrapping_add(1442695040888963407);
        buf.push((state >> 33) as u8);
    }
    let e = shannon_entropy_mbits(&buf);
    // within 0.05 bits of 8.0
    assert!(e >= 7950 && e <= 8050, "entropy {e} out of range");
}

#[test]
fn two_value_split_scores_one_bit() {
    let mut buf = vec![0u8; 512];
    buf.extend(vec![1u8; 512]);
    assert_eq!(shannon_entropy_mbits(&buf), 1000);
}

#[test]
fn skewed_distribution_scores_between_zero_and_eight_bits() {
    let mut buf = vec![0u8; 1000];
    buf.extend(vec![1u8; 10]);
    let e = shannon_entropy_mbits(&buf);
    assert!(e > 0 && e < 8000);
}
