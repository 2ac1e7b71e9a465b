use rom_pipeline::psp::normalize_umd_id;
use rom_pipeline::sfo::parse_strings;

#[test]
fn parses_string_entries() {
    let mut bytes = Vec::new();
    bytes.extend_from_slice(b"\0PSF");
    bytes.extend_from_slice(&0x0000_0101_u32.to_le_bytes());
    bytes.extend_from_slice(&36_u32.to_le_bytes());
    bytes.extend_from_slice(&50_u32.to_le_bytes());
    bytes.extend_from_slice(&1_u32.to_le_bytes());
    bytes.extend_from_slice(&0_u16.to_le_bytes());
    bytes.extend_from_slice(&0x0204_u16.to_le_bytes());
    bytes.extend_from_slice(&10_u32.to_le_bytes());
    bytes.extend_from_slice(&16_u32.to_le_bytes());
    bytes.extend_from_slice(&0_u32.to_le_bytes());
    bytes.extend_from_slice(b"DISC_ID\0");
    bytes.extend_from_slice(&[0; 6]);
    bytes.extend_from_slice(b"ULUS10055\0");
    bytes.extend_from_slice(&[0; 6]);

    let values = parse_strings(&bytes).expect("parse");
    assert_eq!(values.get("DISC_ID").map(String::as_str), Some("ULUS10055"));
}

#[test]
fn rejects_invalid_magic() {
    assert!(parse_strings(b"not an sfo").is_err());
}

#[test]
fn normalizes_hyphenated_umd_id() {
    assert_eq!(
        normalize_umd_id(b"ULUS-10055|E").expect("normalize"),
        "ULUS10055"
    );
}

#[test]
fn rejects_invalid_umd_id() {
    assert!(normalize_umd_id(b"NOT-A-PSP-ID").is_err());
}
