use rom_pipeline::digest::{sha256_hex, sha256_name, sha256_prefix_upper, utf8_bytes};

fn text(v: Vec<char>) -> String {
    v.into_iter().collect()
}

#[test]
fn sha256_of_known_inputs() {
    assert_eq!(
        text(sha256_hex(b"abc", false)),
        "ba7816bf8f01cfea414140de5dae2223b00361a396177a9cb410ff61f20015ad"
    );
    assert_eq!(
        text(sha256_hex(b"", true)),
        "E3B0C44298FC1C149AFBF4C8996FB92427AE41E4649B934CA495991B7852B855"
    );
}

#[test]
fn sha256_of_names_and_prefixes() {
    assert_eq!(utf8_bytes(&"é".to_owned()), vec![0xc3, 0xa9]);
    assert_eq!(
        text(sha256_name(&"abc".to_owned(), true)),
        "BA7816BF8F01CFEA414140DE5DAE2223B00361A396177A9CB410FF61F20015AD"
    );
    assert_eq!(text(sha256_prefix_upper("abc", 4)), "BA7816BF");
}
