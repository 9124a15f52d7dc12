use file_info::pe::hash::{HashData, Hashes};

#[test]
fn digest_triple_has_fixed_names_and_order() {
    let h = Hashes::parse(b"");
    assert_eq!(h.hashes.len(), 3);
    assert_eq!(h.hashes[0].name, "MD5");
    assert_eq!(h.hashes[1].name, "SHA1");
    assert_eq!(h.hashes[2].name, "SHA256");
}

#[test]
fn digests_of_empty_input_match_the_known_values() {
    let h = Hashes::parse(b"");
    assert_eq!(h.hashes[0].value, b"d41d8cd98f00b204e9800998ecf8427e".to_vec());
    assert_eq!(h.hashes[1].value, b"da39a3ee5e6b4b0d3255bfef95601890afd80709".to_vec());
    assert_eq!(
        h.hashes[2].value,
        b"e3b0c44298fc1c149afbf4c8996fb92427ae41e4649b934ca495991b7852b855".to_vec(),
    );
}

#[test]
fn digests_of_abc_match_the_known_values() {
    let h = Hashes::parse(b"abc");
    assert_eq!(h.hashes[0].value, b"900150983cd24fb0d6963f7d28e17f72".to_vec());
    assert_eq!(h.hashes[1].value, b"a9993e364706816aba3e25717850c26c9cd0d89d".to_vec());
    assert_eq!(
        h.hashes[2].value,
        b"ba7816bf8f01cfea414140de5dae2223b00361a396177a9cb410ff61f20015ad".to_vec(),
    );
}

#[test]
fn identical_input_gives_identical_digests() {
    let a = Hashes::parse(b"the quick brown fox");
    let b = Hashes::parse(b"the quick brown fox");
    for i in 0..3 {
        assert_eq!(a.hashes[i].value, b.hashes[i].value);
    }
}

#[test]
fn changing_one_byte_changes_all_three_digests() {
    let a = Hashes::parse(b"the quick brown fox");
    let b = Hashes::parse(b"the quick brown foy");
    for i in 0..3 {
        assert_ne!(a.hashes[i].value, b.hashes[i].value);
    }
}

#[test]
fn hash_data_trait_matches_the_triple() {
    let data: &[u8] = b"abc";
    let h = Hashes::parse(data);
    assert_eq!(data.md5(), h.hashes[0].value);
    assert_eq!(data.sha1(), h.hashes[1].value);
    assert_eq!(data.sha256(), h.hashes[2].value);
}
