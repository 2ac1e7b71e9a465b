use rom_pipeline::cci::{
    check_cia_title, check_region_hash, cia_tmd_offset, inspection, inspection_steps,
    main_partition, partition_identity, tmd_title_offset, title_id_text, CciIdentity,
    RegionStep,
};
use rom_pipeline::error::PipelineError;

fn put_le32(b: &mut [u8], at: usize, v: u32) {
    b[at..at + 4].copy_from_slice(&v.to_le_bytes());
}

fn ncsd_header(units: u32, size_units: u32) -> Vec<u8> {
    let mut b = vec![0u8; 0x200];
    b[0x100..0x104].copy_from_slice(b"NCSD");
    put_le32(&mut b, 0x120, units);
    put_le32(&mut b, 0x124, size_units);
    b
}

fn message(e: PipelineError) -> String {
    match e {
        PipelineError::Message(m) => m,
        other => panic!("unexpected error {other:?}"),
    }
}

#[test]
fn main_partition_reads_media_units() {
    let header = ncsd_header(0x4000, 0x100);
    assert_eq!(main_partition(&header, 0x1_0000_0000).unwrap(), (0x80_0000, 0x2_0000));
}

#[test]
fn main_partition_rejects_bad_magic() {
    let mut header = ncsd_header(1, 1);
    header[0x100] = b'X';
    assert_eq!(message(main_partition(&header, 0x10000).unwrap_err()), "invalid NCSD magic at 0x100");
}

#[test]
fn main_partition_rejects_missing_partition() {
    let header = ncsd_header(0, 4);
    assert_eq!(message(main_partition(&header, 0x10000).unwrap_err()), "CCI has no main NCCH partition");
}

#[test]
fn main_partition_rejects_partition_past_the_end() {
    let header = ncsd_header(2, 4);
    assert_eq!(
        message(main_partition(&header, 0x800).unwrap_err()),
        "main NCCH extends beyond its containing image"
    );
    assert_eq!(main_partition(&header, 0xc00).unwrap(), (0x400, 0x800));
}

fn ncch_header() -> Vec<u8> {
    let mut b = vec![0u8; 0x200];
    b[0x100..0x104].copy_from_slice(b"NCCH");
    b[0x118..0x120].copy_from_slice(&[0x00, 0x11, 0x22, 0x33, 0x44, 0x55, 0x04, 0x00]);
    b
}

#[test]
fn partition_identity_reads_title_id_reversed() {
    let id = partition_identity(&ncch_header(), 0x4000, 0x8000).unwrap();
    assert_eq!(
        id,
        CciIdentity { title_id: "0004554433221100".to_string(), partition_offset: 0x4000, partition_size: 0x8000 }
    );
}

#[test]
fn partition_identity_reports_magic_offset() {
    let mut b = ncch_header();
    b[0x103] = 0;
    assert_eq!(message(partition_identity(&b, 0x4000, 0x8000).unwrap_err()), "invalid NCCH magic at 0x4100");
}

#[test]
fn inspection_steps_cover_all_regions() {
    let mut b = ncch_header();
    put_le32(&mut b, 0x180, 0x400);
    put_le32(&mut b, 0x1a0, 2);
    put_le32(&mut b, 0x1a8, 3);
    put_le32(&mut b, 0x1b0, 8);
    put_le32(&mut b, 0x1b8, 4);
    let steps = inspection_steps(&b, 0x1000, 0x2000);
    assert_eq!(steps.len(), 3);
    let names: Vec<(String, u64, u64, u64)> = steps
        .into_iter()
        .map(|s| match s {
            RegionStep::Verify(r) => (r.name, r.hash_offset, r.data_offset, r.size),
            RegionStep::Fail(e) => panic!("unexpected failure {e:?}"),
        })
        .collect();
    assert_eq!(
        names,
        vec![
            ("extended header".to_string(), 0x1160, 0x1200, 0x400),
            ("ExeFS".to_string(), 0x11c0, 0x1400, 0x600),
            ("RomFS".to_string(), 0x11e0, 0x2000, 0x800),
        ]
    );
}

#[test]
fn inspection_steps_require_exefs() {
    let b = ncch_header();
    let steps = inspection_steps(&b, 0x1000, 0x2000);
    assert_eq!(steps.len(), 1);
    match &steps[0] {
        RegionStep::Fail(PipelineError::Message(m)) => {
            assert_eq!(m, "main NCCH has no verifiable ExeFS hash region")
        }
        other => panic!("unexpected step {other:?}"),
    }
}

#[test]
fn inspection_steps_stop_at_region_outside_partition() {
    let mut b = ncch_header();
    put_le32(&mut b, 0x1a0, 1);
    put_le32(&mut b, 0x1a8, 2);
    put_le32(&mut b, 0x1b0, 3);
    put_le32(&mut b, 0x1b8, 100);
    let steps = inspection_steps(&b, 0, 0x1000);
    assert_eq!(steps.len(), 2);
    assert!(matches!(&steps[0], RegionStep::Verify(r) if r.name == "ExeFS" && r.data_offset == 0x200));
    match &steps[1] {
        RegionStep::Fail(PipelineError::Message(m)) => assert_eq!(m, "RomFS extends beyond its containing image"),
        other => panic!("unexpected step {other:?}"),
    }
}

#[test]
fn region_hash_mismatch_names_region() {
    assert!(check_region_hash("ExeFS", &[1, 2, 3], &[1, 2, 3]).is_ok());
    assert_eq!(
        message(check_region_hash("ExeFS", &[1, 2, 3], &[1, 2, 4]).unwrap_err()),
        "main NCCH ExeFS hash mismatch; content is encrypted or corrupt"
    );
}

#[test]
fn inspection_keeps_flags_and_identity() {
    let mut b = ncch_header();
    b[0x188..0x190].copy_from_slice(&[1, 2, 3, 4, 5, 6, 7, 0x20]);
    let id = partition_identity(&b, 0x4000, 0x8000).unwrap();
    let i = inspection(id, &b, 2);
    assert_eq!(i.title_id, "0004554433221100");
    assert_eq!(i.partition_offset, 0x4000);
    assert_eq!(i.flags, [1, 2, 3, 4, 5, 6, 7, 0x20]);
    assert_eq!(i.verified_regions, 2);
    assert!(!i.is_marked_decrypted());
    let n = i.normalized_flags();
    assert_eq!(n, [1, 2, 3, 0, 5, 6, 7, 0x04]);
    assert_eq!(i.flag_offsets(), [0x4000 + 0x188 + 3, 0x4000 + 0x188 + 7]);
}

#[test]
fn cia_tmd_offset_aligns_each_part() {
    let mut h = vec![0u8; 0x20];
    put_le32(&mut h, 0, 0x2020);
    put_le32(&mut h, 8, 0xa00);
    put_le32(&mut h, 0xc, 0x350);
    // 0x2020 -> 0x2040; + 0xa00 = 0x2a40; + 0x350 = 0x2d90 -> 0x2dc0
    assert_eq!(cia_tmd_offset(&h), 0x2dc0);
}

#[test]
fn tmd_title_offset_by_signature_type() {
    assert_eq!(tmd_title_offset(&[0, 1, 0, 4]), Some(4 + 0x100 + 0x3c + 0x4c));
    assert_eq!(tmd_title_offset(&[0, 1, 0, 0]), Some(4 + 0x200 + 0x3c + 0x4c));
    assert_eq!(tmd_title_offset(&[0, 1, 0, 5]), Some(4 + 0x3c + 0x40 + 0x4c));
    assert_eq!(tmd_title_offset(&[0, 2, 0, 0]), None);
}

#[test]
fn cia_title_id_text_and_check() {
    assert_eq!(title_id_text(&[0x00, 0x04, 0x00, 0x00, 0x00, 0x12, 0xab, 0xcd]), "000400000012ABCD");
    assert!(check_cia_title("000400000012ABCD", "000400000012ABCD").is_ok());
    assert_eq!(
        message(check_cia_title("000400000012ABCD", "0004000000000000").unwrap_err()),
        "CIA title ID mismatch: expected=000400000012ABCD actual=0004000000000000"
    );
}
