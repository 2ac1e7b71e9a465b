use rom_pipeline::adapters::{GameCubeAdapter, WiiUAdapter};
use rom_pipeline::error::PipelineError;
use rom_pipeline::config::{AppConfig, ProfileConfig, ServiceConfig, SystemKind, WiiUSettings};

fn profile() -> ProfileConfig {
    ProfileConfig {
        id: "wiiu".to_owned(),
        name: "Wii U".to_owned(),
        system: SystemKind::WiiU,
        source_format: "nus-7z".to_owned(),
        source_dir: "/source".to_owned(),
        done_dir: "/source/done".to_owned(),
        work_dir: "/work".to_owned(),
        state_dir: "/state".to_owned(),
        log_dir: "/logs".to_owned(),
        output_dir: "/output".to_owned(),
        library_dir: None,
        output_format: "wua".to_owned(),
        batch_limit: 5,
        wiiu: Some(WiiUSettings {
            manifest: "/manifest.tsv".to_owned(),
            cdecrypt: "/cdecrypt".to_owned(),
            zarchive: "/zarchive".to_owned(),
            wait_seconds: 60,
            source_service: "download.service".to_owned(),
        }),
        gamecube: None,
        nintendo_3ds: None,
        psp: None,
        ps2: None,
    }
}

#[test]
fn duplicate_profile_ids_are_rejected() {
    let one = profile();
    let two = one.clone();
    let config = AppConfig {
        service: ServiceConfig::default(),
        profiles: vec![one, two],
    };
    assert!(config.validate().is_err());
}

#[test]
fn single_valid_profile_validates() {
    let config = AppConfig {
        service: ServiceConfig::default(),
        profiles: vec![profile()],
    };
    assert!(config.validate().is_ok());
    assert_eq!(config.profile("wiiu").expect("profile").name, "Wii U");
    assert!(config.profile("psp").is_err());
}

#[test]
fn adapters_are_built_only_from_valid_profiles_of_their_system() {
    let adapter = WiiUAdapter::new(profile()).expect("valid Wii U profile");
    assert_eq!(adapter.profile(), &profile());
    assert_eq!(
        GameCubeAdapter::new(profile()).err(),
        Some(PipelineError::InvalidConfig("profile wiiu is not GameCube".to_owned()))
    );
    let mut invalid = profile();
    invalid.batch_limit = 0;
    let expected = invalid.validate().err();
    assert!(expected.is_some());
    assert_eq!(WiiUAdapter::new(invalid).err(), expected);
}
