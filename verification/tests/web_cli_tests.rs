use rom_pipeline::cli::{
    check_command_system, check_prune_confirmed, library_report, migration_report, options,
    parse_action, parse_limit, run_report, status_lines, value, Action, Cli,
};
use rom_pipeline::domain::RunSummary;
use rom_pipeline::library::LibrarySummary;
use rom_pipeline::migration::MigrationSummary;
use rom_pipeline::config::{AppConfig, ProfileConfig, PspSettings, ServiceConfig, SystemKind};
use rom_pipeline::error::PipelineError;
use rom_pipeline::status::{ProfileStatus, PruneProgress};
use rom_pipeline::web::{
    apply_profile_form, ensure_editable, ensure_prunable, ensure_prune_confirmed,
    ensure_publishable, escape, progress_percent, required, SaveProfileForm,
};

fn psp_profile() -> ProfileConfig {
    ProfileConfig {
        id: "psp".to_owned(),
        name: "PSP".to_owned(),
        system: SystemKind::PlayStationPortable,
        source_format: "iso".to_owned(),
        source_dir: "/src".to_owned(),
        done_dir: "/done".to_owned(),
        work_dir: "/work".to_owned(),
        state_dir: "/state".to_owned(),
        log_dir: "/logs".to_owned(),
        output_dir: "/out".to_owned(),
        library_dir: Some("/lib".to_owned()),
        output_format: "chd".to_owned(),
        batch_limit: 3,
        wiiu: None,
        gamecube: None,
        nintendo_3ds: None,
        psp: Some(PspSettings {
            chdman: "/usr/bin/chdman".to_owned(),
            codec: "cd".to_owned(),
            hunk_size: 2048,
            verify_round_trip: true,
        }),
        ps2: None,
    }
}

fn form() -> SaveProfileForm {
    SaveProfileForm {
        profile: "psp".to_owned(),
        name: "Portable".to_owned(),
        source_format: "iso".to_owned(),
        source_dir: "/in".to_owned(),
        done_dir: "/done2".to_owned(),
        work_dir: "/work2".to_owned(),
        state_dir: "/state2".to_owned(),
        log_dir: "/logs2".to_owned(),
        output_dir: "/out2".to_owned(),
        library_dir: Some("   ".to_owned()),
        output_format: "chd".to_owned(),
        batch_limit: 9,
        manifest: None,
        cdecrypt: None,
        zarchive: None,
        wait_seconds: None,
        chdman: Some("/opt/chdman".to_owned()),
        dolphin_tool: None,
        block_size: None,
        compression: None,
        compression_level: None,
        codec: Some("zstd".to_owned()),
        hunk_size: Some(4096),
        verify_round_trip: Some(false),
        minimum_savings_percent: None,
        preserve_when_compression_is_not_worthwhile: None,
    }
}

fn config() -> AppConfig {
    AppConfig { service: ServiceConfig::default(), profiles: vec![psp_profile()] }
}

#[test]
fn profile_form_updates_matching_profile() {
    let mut c = config();
    apply_profile_form(&mut c, form()).unwrap();
    let p = &c.profiles[0];
    assert_eq!(p.name, "Portable");
    assert_eq!(p.source_dir, "/in");
    assert_eq!(p.library_dir, None);
    assert_eq!(p.batch_limit, 9);
    assert_eq!(
        p.psp,
        Some(PspSettings { chdman: "/opt/chdman".to_owned(), codec: "zstd".to_owned(), hunk_size: 4096, verify_round_trip: false })
    );
}

#[test]
fn profile_form_errors_leave_configuration() {
    let mut c = config();
    let mut f = form();
    f.profile = "nope".to_owned();
    assert_eq!(
        apply_profile_form(&mut c, f),
        Err(PipelineError::InvalidConfig("unknown profile: nope".to_owned()))
    );
    let mut f = form();
    f.codec = None;
    assert_eq!(
        apply_profile_form(&mut c, f),
        Err(PipelineError::InvalidConfig("codec is required".to_owned()))
    );
    assert_eq!(c, config());
}

#[test]
fn screen_guards() {
    assert!(ensure_editable("inactive").is_ok());
    assert_eq!(
        ensure_editable("active"),
        Err(PipelineError::Message("stop the profile before changing its configuration".to_owned()))
    );
    assert!(ensure_publishable(&SystemKind::PlayStation2).is_ok());
    assert_eq!(
        ensure_publishable(&SystemKind::WiiU),
        Err(PipelineError::Message("publish is currently implemented only for GameCube, PSP, and PS2".to_owned()))
    );
    assert_eq!(
        ensure_prunable(&SystemKind::Nintendo3ds),
        Err(PipelineError::Message("prune is currently implemented only for GameCube, PSP, and PS2".to_owned()))
    );
    assert!(ensure_prune_confirmed(&Some("yes".to_owned())).is_ok());
    assert_eq!(
        ensure_prune_confirmed(&Some("no".to_owned())),
        Err(PipelineError::Message("source pruning requires explicit confirmation".to_owned()))
    );
    assert_eq!(required(Some("x".to_owned()), "name"), Ok("x".to_owned()));
    assert_eq!(required(None, "name"), Err(PipelineError::InvalidConfig("name is required".to_owned())));
}

#[test]
fn escape_and_progress() {
    assert_eq!(escape("<a href=\"x\">Tom & Jerry's</a>"), "&lt;a href=&quot;x&quot;&gt;Tom &amp; Jerry&#39;s&lt;/a&gt;");
    assert_eq!(progress_percent(1, 3), 33);
    assert_eq!(progress_percent(5, 0), 0);
    assert_eq!(progress_percent(3, 3), 100);
}

fn args(a: &[&str]) -> Vec<String> {
    a.iter().map(|s| s.to_string()).collect()
}

#[test]
fn command_line_is_parsed() {
    let cli = Cli::from_args(
        &args(&["run", "--config", "/etc/rp.toml", "--profile", "psp", "--limit", "4", "--only", "abc", "--reverify", "--no-wait"]),
        "config.toml",
    )
    .unwrap();
    assert_eq!(
        cli,
        Cli {
            action: Action::Run,
            config: "/etc/rp.toml".to_owned(),
            profile: "psp".to_owned(),
            limit: Some(4),
            only: Some("ABC".to_owned()),
            reverify: true,
            wait_for_source: false,
            confirm_prune: false,
        }
    );
    let defaults = Cli::from_args(&args(&["resume", "7"]), "config.toml").unwrap();
    assert_eq!(defaults.action, Action::Start);
    assert_eq!(defaults.config, "config.toml");
    assert_eq!(defaults.profile, "wiiu");
    assert_eq!(defaults.limit, Some(7));
    assert!(defaults.wait_for_source);
    assert_eq!(Cli::from_args(&args(&[]), "c").unwrap().action, Action::Help);
}

#[test]
fn command_line_errors() {
    assert_eq!(
        Cli::from_args(&args(&["bogus"]), "c"),
        Err(PipelineError::Message("unknown command: bogus".to_owned()))
    );
    assert_eq!(
        Cli::from_args(&args(&["run", "--limit"]), "c"),
        Err(PipelineError::Message("--limit requires a value".to_owned()))
    );
    assert_eq!(
        Cli::from_args(&args(&["run", "--frobnicate"]), "c"),
        Err(PipelineError::Message("unknown option: --frobnicate".to_owned()))
    );
    assert_eq!(
        Cli::from_args(&args(&["run", "0"]), "c"),
        Err(PipelineError::Message("batch limit must exceed zero".to_owned()))
    );
    assert_eq!(parse_limit("x1"), Err(PipelineError::Message("invalid batch limit: x1".to_owned())));
    assert_eq!(parse_limit("12"), Ok(12));
    assert_eq!(parse_action(Some(&"dry-run".to_owned())), Ok(Action::Inventory));
    assert_eq!(value(&args(&["a", "b"]), 1, "--x"), Ok("b".to_owned()));
}

#[test]
fn run_options_from_command_line() {
    let cli = Cli::from_args(&args(&["run", "--confirm-prune"]), "c").unwrap();
    assert!(cli.confirm_prune);
    let o = options(&cli, 6).unwrap();
    assert_eq!(o.limit.limit(), 6);
    assert!(o.wait_for_source);
    assert_eq!(
        options(&cli, 0).unwrap_err(),
        PipelineError::InvalidConfig("batch limit must exceed zero".to_owned())
    );
}

#[test]
fn status_report_lines() {
    let s = ProfileStatus {
        profile: "psp".to_owned(),
        service: "inactive".to_owned(),
        activity: "idle".to_owned(),
        current: "none".to_owned(),
        batch_limit: 5,
        completed_groups: 2,
        total_groups: 4,
        output_files: 2,
        source_archives_moved_to_done: 1,
        current_run_failures: 0,
        active_worker: None,
        publication: None,
        prune: Some(PruneProgress {
            removed: 1,
            remaining: 1,
            total: 2,
            phase: "Pruning".to_owned(),
            current_game: None,
        }),
        log: "/logs/pipeline.log".to_owned(),
    };
    assert_eq!(
        status_lines(&s),
        vec![
            "profile=psp",
            "service=inactive",
            "activity=idle",
            "current=none",
            "batch_limit=5",
            "groups=2/4",
            "output_files=2",
            "source_archives_moved_to_done=1",
            "current_run_failures=0",
            "prune=1/2 remaining=1 phase=Pruning",
            "prune_current=none",
            "active_worker=none",
            "log=/logs/pipeline.log",
        ]
    );
}

#[test]
fn commands_act_on_supported_systems() {
    assert!(check_command_system(Action::Publish, SystemKind::PlayStationPortable).is_ok());
    assert_eq!(
        check_command_system(Action::Publish, SystemKind::GameCube),
        Err(PipelineError::Message("publish is currently implemented only for PSP".to_owned()))
    );
    assert_eq!(
        check_command_system(Action::Prune, SystemKind::PlayStation2),
        Err(PipelineError::Message("prune is currently implemented only for PSP".to_owned()))
    );
    assert_eq!(
        check_command_system(Action::Migrate3dsLibrary, SystemKind::WiiU),
        Err(PipelineError::Message("migrate-3ds-library requires a Nintendo 3DS profile".to_owned()))
    );
    assert_eq!(
        check_command_system(Action::Doctor, SystemKind::PlayStation2),
        Err(PipelineError::Message("PS2 adapter is not implemented yet".to_owned()))
    );
    assert!(check_command_system(Action::Inventory, SystemKind::GameCube).is_ok());
    assert!(check_command_system(Action::Run, SystemKind::PlayStation2).is_ok());
}

#[test]
fn prune_needs_confirmation_on_command_line() {
    let unconfirmed = Cli::from_args(&args(&["prune", "5"]), "c").unwrap();
    assert_eq!(
        check_prune_confirmed(&unconfirmed),
        Err(PipelineError::Message(
            "prune permanently deletes processed source ISOs; pass --confirm-prune".to_owned()
        ))
    );
    let confirmed = Cli::from_args(&args(&["prune", "5", "--confirm-prune"]), "c").unwrap();
    assert!(check_prune_confirmed(&confirmed).is_ok());
    let publish = Cli::from_args(&args(&["publish"]), "c").unwrap();
    assert!(check_prune_confirmed(&publish).is_ok());
}

#[test]
fn command_reports() {
    let s = LibrarySummary { completed_jobs: 2, failed_jobs: 1, files_removed: 3, bytes_reclaimed: 4096 };
    assert_eq!(
        library_report(Action::Publish, &s),
        "published=2 failed=1 staging_files_removed=3 bytes_reclaimed=4096"
    );
    assert_eq!(
        library_report(Action::Prune, &s),
        "pruned_jobs=2 failed=1 source_files_removed=3 bytes_reclaimed=4096"
    );
    assert_eq!(
        migration_report(&MigrationSummary { converted: 1, already_complete: 2, failed: 0 }),
        "converted=1 already_complete=2 failed=0"
    );
    assert_eq!(run_report(&RunSummary { completed: 3, failed: 0, waiting: 1 }), "completed=3 failed=0 waiting=1");
}
