use rom_pipeline::cci::{check_normalized, CciInspection};
use rom_pipeline::config::Ps2Settings;
use rom_pipeline::domain::{check_source_size, ComponentKind, SourceArtifact};
use rom_pipeline::error::PipelineError;
use rom_pipeline::service::keeps_source;
use rom_pipeline::wiiu::{
    check_decrypted, check_metadata_title, check_tmd_count, check_tmd_title, TitleMetadata,
};

fn update() -> SourceArtifact {
    SourceArtifact {
        title_id: "0005000E12345600".to_owned(),
        expected_size: 20,
        name: "Game [0005000E12345600] [UPDATE v16].7z".to_owned(),
        role: ComponentKind::Update,
    }
}

fn message(text: &str) -> PipelineError {
    PipelineError::Message(text.to_owned())
}

#[test]
fn source_sizes_are_checked() {
    assert!(check_source_size("PS2 source", &update(), 20).is_ok());
    assert_eq!(
        check_source_size("3DS ZIP", &update(), 21),
        Err(message(
            "3DS ZIP size mismatch for Game [0005000E12345600] [UPDATE v16].7z: expected=20 actual=21"
        ))
    );
}

#[test]
fn tmd_and_metadata_title_ids_are_checked() {
    assert!(check_tmd_title(&update(), &"0005000E12345600".to_owned()).is_ok());
    assert_eq!(
        check_tmd_title(&update(), &"0005000012345600".to_owned()),
        Err(message(
            "TMD title ID mismatch role=update expected=0005000E12345600 actual=0005000012345600 archive=Game [0005000E12345600] [UPDATE v16].7z"
        ))
    );
    let base_meta = TitleMetadata {
        title_id: "0005000012345600".to_owned(),
        version: 16,
    };
    assert!(check_metadata_title(&update(), &base_meta).is_ok());
    let own_meta = TitleMetadata {
        title_id: "0005000E12345600".to_owned(),
        version: 16,
    };
    assert_eq!(
        check_metadata_title(&update(), &own_meta),
        Err(message(
            "decrypted metadata title ID mismatch role=update expected=0005000012345600 actual=0005000E12345600"
        ))
    );
    assert!(check_tmd_count(&update(), 1).is_ok());
    assert_eq!(
        check_tmd_count(&update(), 2),
        Err(message(
            "expected one title.tmd in Game [0005000E12345600] [UPDATE v16].7z, found 2"
        ))
    );
}

#[test]
fn decrypted_titles_are_checked() {
    let mut base = update();
    base.role = ComponentKind::Base;
    assert_eq!(
        check_decrypted(&base, false, false),
        Err(message(&format!(
            "base title has no decrypted code directory: {}",
            base.name
        )))
    );
    assert!(check_decrypted(&update(), false, false).is_ok());
    assert_eq!(
        check_decrypted(&update(), true, true),
        Err(message(&format!(
            "decrypted title contains a symbolic link: {}",
            update().name
        )))
    );
}

#[test]
fn normalized_cartridges_keep_their_identity() {
    let before = CciInspection {
        title_id: "0004000000055D00".to_owned(),
        partition_offset: 0x4000,
        flags: [0, 0, 0, 0, 0, 0, 0, 0],
        verified_regions: 3,
    };
    let mut after = before.clone();
    after.flags[7] = 0x04;
    assert!(check_normalized(&before, &after).is_ok());
    assert_eq!(
        check_normalized(&before, &before),
        Err(message("normalized 3DS cartridge identity or crypto flags are invalid"))
    );
    after.title_id = "0004000000055E00".to_owned();
    assert!(check_normalized(&before, &after).is_err());
}

#[test]
fn ps2_keeps_sources_that_do_not_compress_enough() {
    let settings = Ps2Settings {
        manifest: "/m".to_owned(),
        chdman: "/c".to_owned(),
        minimum_savings_percent: 10,
        preserve_when_compression_is_not_worthwhile: true,
        verify_round_trip: true,
    };
    assert!(keeps_source(&settings, 100, 95));
    assert!(!keeps_source(&settings, 100, 90));
    let mut never = settings.clone();
    never.preserve_when_compression_is_not_worthwhile = false;
    assert!(!keeps_source(&never, 100, 99));
}
