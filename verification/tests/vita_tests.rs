use rom_pipeline::vita::parse_listing;

const VALID: &str = r"header
----------
Path = app/PCSE00001/eboot.bin
Folder = -
Size = 3
CRC = 352441C2

Path = app/PCSE00001/sce_sys/param.sfo
Folder = -
Size = 2
CRC = 79DCDD47

Path = app/PCSE00001/sce_sys/package/work.bin
Folder = -
Size = 1
CRC = D3D99E8B
";

#[test]
fn validates_native_nonpdrm_layout() {
    let layout = parse_listing(VALID, "PCSE00001").expect("valid layout");
    assert_eq!(layout.entries.len(), 3);
    assert_eq!(layout.unpacked_bytes, 6);
    assert!(!layout.has_patch);
}

#[test]
fn rejects_path_traversal() {
    let invalid = VALID.replace("app/PCSE00001/eboot.bin", "app/PCSE00001/../../escape.bin");
    assert!(parse_listing(&invalid, "PCSE00001").is_err());
}
