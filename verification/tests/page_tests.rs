use rom_pipeline::config::{AppConfig, GameCubeSettings, ProfileConfig, ServiceConfig, SystemKind};
use rom_pipeline::page::{
    common_configuration_fields, configuration_form, gamecube_configuration_fields,
    library_actions, profile_selector, prune_status, publication_status, render_profiles,
    run_actions,
};
use rom_pipeline::preflight::{gamecube_config, nintendo_3ds_config, tool_is_executable, wiiu_config};
use rom_pipeline::status::{ProfileStatus, PruneProgress, PublicationProgress};
use rom_pipeline::error::PipelineError;

fn gamecube() -> ProfileConfig {
    ProfileConfig {
        id: "gc".to_owned(),
        name: "Game & Cube".to_owned(),
        system: SystemKind::GameCube,
        source_format: "iso".to_owned(),
        source_dir: "/src".to_owned(),
        done_dir: "/done".to_owned(),
        work_dir: "/work".to_owned(),
        state_dir: "/state".to_owned(),
        log_dir: "/logs".to_owned(),
        output_dir: "/out".to_owned(),
        library_dir: Some("/lib".to_owned()),
        output_format: "rvz".to_owned(),
        batch_limit: 3,
        wiiu: None,
        gamecube: Some(GameCubeSettings {
            manifest: "/m.tsv".to_owned(),
            dolphin_tool: "/dt".to_owned(),
            block_size: 131072,
            compression: "zstd".to_owned(),
            compression_level: -2,
            verify_round_trip: true,
        }),
        nintendo_3ds: None,
        psp: None,
        ps2: None,
    }
}

fn status() -> ProfileStatus {
    ProfileStatus {
        profile: "gc".to_owned(),
        service: "active".to_owned(),
        activity: "processing".to_owned(),
        current: "group=G step=x output=<a>".to_owned(),
        batch_limit: 3,
        completed_groups: 4,
        total_groups: 9,
        output_files: 4,
        source_archives_moved_to_done: 0,
        current_run_failures: 0,
        active_worker: None,
        publication: Some(PublicationProgress {
            published: 1,
            ready: 4,
            remaining: 8,
            total: 9,
            partial_files: 0,
            phase: "Ready to publish".to_owned(),
            current_game: None,
        }),
        prune: Some(PruneProgress {
            removed: 1,
            remaining: 3,
            total: 4,
            phase: "Ready to continue pruning".to_owned(),
            current_game: Some("A'B".to_owned()),
        }),
        log: "/logs/pipeline.log".to_owned(),
    }
}

#[test]
fn field_values_are_escaped_and_numbers_written() {
    let fields: String = gamecube_configuration_fields(&gamecube(), gamecube().gamecube.as_ref().unwrap())
        .into_iter()
        .collect();
    assert!(fields.starts_with(
        "<label>Display name<input type=\"text\" name=\"name\" value=\"Game &amp; Cube\" required></label>"
    ));
    assert!(fields.contains("name=\"library_dir\" value=\"/lib\""));
    assert!(fields.contains("name=\"batch_limit\" value=\"3\""));
    assert!(fields.contains("name=\"compression_level\" value=\"-2\""));
    assert!(fields.contains("name=\"verify_round_trip\" value=\"true\""));
    let common: String = common_configuration_fields(&gamecube()).into_iter().collect();
    assert!(fields.starts_with(&common));
}

#[test]
fn missing_settings_replace_the_form() {
    let mut p = gamecube();
    p.gamecube = None;
    assert_eq!(configuration_form(&p), "<p>GameCube settings are missing.</p>");
    let form = configuration_form(&gamecube());
    assert!(form.starts_with("<details><summary>Configuration</summary>\n"));
    assert!(form.ends_with("</form></details>"));
}

#[test]
fn run_and_library_actions() {
    let p = gamecube();
    let run = run_actions(&p);
    assert!(run.contains("<input name=\"limit\" type=\"number\" min=\"1\" value=\"3\">"));
    assert!(library_actions(&p).contains("Prune source files"));
    let mut no_library = gamecube();
    no_library.library_dir = None;
    assert_eq!(library_actions(&no_library), "");
}

#[test]
fn progress_blocks_follow_the_status() {
    let p = gamecube();
    let st = status();
    let publication = publication_status(&p, Some(&st));
    assert!(publication.contains(">1 / 9 published (11%)</strong>"));
    assert!(publication.contains("id=\"publication-game-gc\">none</strong>"));
    let prune = prune_status(&p, Some(&st));
    assert!(prune.contains(">1 / 4 source files removed (25%)</strong>"));
    assert!(prune.contains(">A&#39;B</strong>"));
    assert_eq!(publication_status(&p, None), "");
    assert_eq!(prune_status(&p, None), "");
}

#[test]
fn cards_and_picker_use_each_profiles_status() {
    let mut other = gamecube();
    other.id = "gc2".to_owned();
    other.name = "Second".to_owned();
    let config = AppConfig {
        service: ServiceConfig::default(),
        profiles: vec![gamecube(), other],
    };
    let statuses = vec![status()];
    let picker = profile_selector(&config, &statuses);
    assert_eq!(
        picker,
        "<label class=\"profile-picker\">System <select id=\"profile-select\"><option value=\"gc\" selected>Game &amp; Cube - processing</option><option value=\"gc2\">Second - unknown</option></select></label>"
    );
    let cards = render_profiles(&config, &statuses);
    assert!(cards.starts_with("<section class=\"card selected\" data-profile=\"gc\" data-vita=\"false\">"));
    assert!(cards.contains("<strong id=\"current-gc\">group=G step=x output=&lt;a&gt;</strong>"));
    assert!(cards.contains("<strong id=\"groups-gc\">4/9</strong>"));
    assert!(cards.contains("<section class=\"card\" data-profile=\"gc2\""));
    assert!(cards.contains("<strong id=\"current-gc2\">not started</strong>"));
    assert!(cards.contains("<strong id=\"groups-gc2\">0/0</strong>"));
    assert!(cards.contains("<p class=\"eyebrow\">GameCube</p>"));
}

#[test]
fn preflight_configuration_checks() {
    assert!(gamecube_config(&gamecube()).is_ok());
    let mut p = gamecube();
    p.output_format = "RVZ".to_owned();
    assert!(gamecube_config(&p).is_ok());
    p.source_format = "zip".to_owned();
    assert_eq!(
        gamecube_config(&p),
        Err(PipelineError::InvalidConfig(
            "GameCube conversion requires source_format=iso and output_format=rvz".to_owned()
        ))
    );
    assert_eq!(
        nintendo_3ds_config(&gamecube()).err(),
        Some(PipelineError::InvalidConfig(
            "Nintendo 3DS conversion requires source_format=zip-3ds and output_format=cia".to_owned()
        ))
    );
    assert_eq!(
        wiiu_config(&gamecube()),
        Err(PipelineError::InvalidConfig("missing Wii U settings".to_owned()))
    );
    assert!(tool_is_executable(true, 0o755));
    assert!(tool_is_executable(true, 0o010));
    assert!(!tool_is_executable(true, 0o644));
    assert!(!tool_is_executable(false, 0o755));
}
