use rom_pipeline::domain::{ComponentKind, SourceArtifact};
use rom_pipeline::wiiu::{packaged_title_id, parse_meta_xml, parse_tmd_title_id, TitleMetadata, WiiUInventory};

#[test]
fn groups_base_update_and_dlc() {
    let manifest = "\
100\tGame [0005000012345600].7z
20\tGame [0005000E12345600] [UPDATE v16].7z
10\tGame [0005000C12345600] [DLC].7z
";
    let inventory = WiiUInventory::parse(manifest, None).expect("inventory");
    assert_eq!(inventory.jobs.len(), 1);
    let job = &inventory.jobs[0];
    assert_eq!(job.id, "12345600");
    assert_eq!(job.display_name, "Game");
    assert_eq!(job.output_name, "Game.wua");
    assert_eq!(job.sources.len(), 3);
    assert_eq!(job.component_count(ComponentKind::Base), 1);
    assert_eq!(job.component_count(ComponentKind::Update), 1);
    assert_eq!(job.component_count(ComponentKind::Dlc), 1);
}

#[test]
fn duplicate_display_names_get_numeric_suffixes() {
    let manifest = "\
100\tSame Game [0005000011111100].7z
100\tSame Game [0005000022222200].7z
";
    let inventory = WiiUInventory::parse(manifest, None).expect("inventory");
    assert_eq!(inventory.jobs[0].output_name, "Same Game.wua");
    assert_eq!(inventory.jobs[1].output_name, "Same Game-2.wua");
}

#[test]
fn only_job_filters_inventory() {
    let manifest = "\
100\tOne [0005000011111100].7z
100\tTwo [0005000022222200].7z
";
    let inventory = WiiUInventory::parse(manifest, Some("22222200")).expect("inventory");
    assert_eq!(inventory.jobs.len(), 1);
    assert_eq!(inventory.jobs[0].display_name, "Two");
}

#[test]
fn update_label_overrides_malformed_base_prefix() {
    let manifest = "\
100\tGame [0005000012345600].7z
20\tGame [0005000012345600] [UPDATE v32].7z
";
    let inventory = WiiUInventory::parse(manifest, None).expect("inventory");
    let job = &inventory.jobs[0];
    assert_eq!(job.component_count(ComponentKind::Base), 1);
    assert_eq!(job.component_count(ComponentKind::Update), 1);
}

#[test]
fn group_without_exactly_one_base_is_rejected() {
    let manifest = "20\tGame [0005000E12345600] [UPDATE v32].7z\n";
    assert!(WiiUInventory::parse(manifest, None).is_err());
}

#[test]
fn parses_title_metadata() {
    let xml = "<menu><title_id type=\"hexBinary\">0005000010101800</title_id><title_version>16</title_version></menu>";
    assert_eq!(
        parse_meta_xml(xml).expect("metadata"),
        TitleMetadata {
            title_id: "0005000010101800".to_owned(),
            version: 16
        }
    );
}

#[test]
fn parses_tmd_title_id() {
    let mut tmd = vec![0_u8; 0x194];
    tmd[0x18c..0x194].copy_from_slice(&[0x00, 0x05, 0x00, 0x0e, 0x10, 0x10, 0x1d, 0x00]);
    assert_eq!(parse_tmd_title_id(&tmd).expect("title ID"), "0005000E10101D00");
}

fn artifact(role: ComponentKind, title_id: &str) -> SourceArtifact {
    SourceArtifact {
        role,
        title_id: title_id.to_owned(),
        expected_size: 1,
        name: "fixture.7z".to_owned(),
    }
}

#[test]
fn packaged_title_id_distinguishes_base_update_and_dlc() {
    assert_eq!(
        packaged_title_id(&artifact(ComponentKind::Base, "0005000012345600")),
        "0005000012345600"
    );
    assert_eq!(
        packaged_title_id(&artifact(ComponentKind::Update, "0005000E12345600")),
        "0005000E12345600"
    );
    assert_eq!(
        packaged_title_id(&artifact(ComponentKind::Dlc, "0005000C12345600")),
        "0005000C12345600"
    );
}

#[test]
fn packaged_update_id_uses_role_when_archive_name_has_base_prefix() {
    let artifact = SourceArtifact {
        role: ComponentKind::Update,
        title_id: "0005000012345600".to_owned(),
        expected_size: 1,
        name: "Game [0005000012345600] [UPDATE v32].7z".to_owned(),
    };
    assert_eq!(packaged_title_id(&artifact), "0005000E12345600");
}
