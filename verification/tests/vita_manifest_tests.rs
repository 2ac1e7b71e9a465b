use rom_pipeline::error::PipelineError;
use rom_pipeline::vita::ArchiveEntry;
use rom_pipeline::vita_manifest::{manifest_text, parse_manifest};

fn entry(path: &str, size: u64, crc32: u32) -> ArchiveEntry {
    ArchiveEntry {
        path: path.to_owned(),
        size,
        crc32,
    }
}

#[test]
fn records_are_sorted_by_path_components() {
    let entries = vec![
        entry("sce_sys-x/a", 1, 0xABC),
        entry("sce_sys/param.sfo", 20, 0xDEADBEEF),
        entry("eboot.bin", 300, 0),
        entry("a/b", 4, 0x1234_5678),
    ];
    assert_eq!(
        manifest_text(&entries),
        "12345678\t4\ta/b\n00000000\t300\teboot.bin\nDEADBEEF\t20\tsce_sys/param.sfo\n00000ABC\t1\tsce_sys-x/a\n"
    );
}

#[test]
fn records_read_back_sorted() {
    let entries = vec![entry("b\tc", 7, 9), entry("a", 0, 0xFFFF_FFFF)];
    let text = manifest_text(&entries);
    let read = parse_manifest(&text).expect("record");
    assert_eq!(read, vec![entry("a", 0, 0xFFFF_FFFF), entry("b\tc", 7, 9)]);
    assert_eq!(parse_manifest("").expect("empty"), Vec::new());
}

#[test]
fn malformed_records_are_rejected() {
    let invalid = |text: &str| PipelineError::Message(text.to_owned());
    assert_eq!(
        parse_manifest("zz\t1\tpath\n"),
        Err(invalid("invalid Vita manifest CRC"))
    );
    assert_eq!(parse_manifest("0A"), Err(invalid("invalid Vita manifest size")));
    assert_eq!(
        parse_manifest("0a\tx\tpath"),
        Err(invalid("invalid Vita manifest size"))
    );
    assert_eq!(parse_manifest("0a\t5"), Err(invalid("invalid Vita manifest path")));
    assert_eq!(
        parse_manifest("+0a\t+5\tp\r\n"),
        Ok(vec![entry("p", 5, 10)])
    );
}
