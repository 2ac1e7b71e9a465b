use rom_pipeline::config::{ProfileConfig, Ps2Settings, SystemKind};
use rom_pipeline::counts::{
    count_extension, count_outputs, count_sources, count_suffix, line_count, main_pid,
    output_files, ps2_remaining, prune_remaining, published_count, read_number, worker_text,
    CompletionTally,
};

fn names(list: &[&str]) -> Vec<String> {
    list.iter().map(|name| (*name).to_owned()).collect()
}

fn ps2(output_format: &str) -> ProfileConfig {
    ProfileConfig {
        id: "ps2".to_owned(),
        name: "PS2".to_owned(),
        system: SystemKind::PlayStation2,
        source_format: "iso".to_owned(),
        source_dir: "/library".to_owned(),
        done_dir: "/done".to_owned(),
        work_dir: "/work".to_owned(),
        state_dir: "/state".to_owned(),
        log_dir: "/logs".to_owned(),
        output_dir: "/out".to_owned(),
        library_dir: Some("/library/".to_owned()),
        output_format: output_format.to_owned(),
        batch_limit: 5,
        wiiu: None,
        gamecube: None,
        nintendo_3ds: None,
        psp: None,
        ps2: Some(Ps2Settings {
            manifest: "/m.tsv".to_owned(),
            chdman: "/chdman".to_owned(),
            minimum_savings_percent: 10,
            preserve_when_compression_is_not_worthwhile: true,
            verify_round_trip: true,
        }),
    }
}

#[test]
fn extensions_are_counted_ignoring_case() {
    let list = names(&["a.CHD", "b.chd", "c.iso", ".chd", "d"]);
    assert_eq!(count_extension(&list, "chd"), 2);
    assert_eq!(count_outputs(&ps2("mixed"), &list), 3);
    assert_eq!(count_outputs(&ps2("chd"), &list), 2);
    assert_eq!(count_suffix(&names(&["A.CHD.PARTIAL", "b.partial", "c"]), ".partial"), 2);
}

#[test]
fn published_outputs_in_the_library_are_not_sources() {
    let p = ps2("mixed");
    let list = names(&["x.iso", "y.bin", "z.chd", "x.ISO"]);
    let outputs = names(&["x.iso"]);
    assert_eq!(count_sources(&p, &"/library".to_owned(), &list, &outputs), 2);
    assert_eq!(count_sources(&p, &"/done".to_owned(), &list, &outputs), 3);
    assert_eq!(
        prune_remaining(&p, &list, &names(&["w.iso"]), &outputs),
        3
    );
}

#[test]
fn output_files_of_ps2_are_its_completed_jobs() {
    let p = ps2("mixed");
    assert_eq!(output_files(&p, 7, &names(&["a.chd"]), &names(&[])), 7);
    let mut other = ps2("chd");
    other.system = SystemKind::PlayStationPortable;
    assert_eq!(
        output_files(&other, 0, &names(&["a.chd", "b.chd"]), &names(&["c.chd"])),
        3
    );
    other.library_dir = Some("/out".to_owned());
    assert_eq!(
        output_files(&other, 0, &names(&["a.chd", "b.chd"]), &names(&["c.chd"])),
        2
    );
}

#[test]
fn ps2_manifest_sources_left() {
    let p = ps2("mixed");
    let list = names(&["a.iso", "b.iso", "c.iso"]);
    let left = ps2_remaining(
        &p,
        &list,
        &vec![true, true, false],
        &vec![false, false, true],
        &names(&["a.iso"]),
    );
    assert_eq!(left, 2);
}

#[test]
fn completion_tally_counts_distinct_ids() {
    let mut tally = CompletionTally::new();
    tally.add_job(&"A".to_owned(), true);
    tally.add_job(&"B".to_owned(), false);
    assert!(!tally.add_record(&"A".to_owned()));
    assert!(tally.add_record(&"C".to_owned()));
    tally.add_valid_record();
    assert_eq!(tally.counts(), (3, 2));
}

#[test]
fn published_count_keeps_distinct_matching_outputs() {
    let records = vec![
        ("a.chd".to_owned(), 10),
        ("b.chd".to_owned(), 20),
        ("a.chd".to_owned(), 10),
        ("c.chd".to_owned(), 30),
    ];
    let found = vec![
        Some((true, 10)),
        Some((true, 21)),
        Some((true, 10)),
        None,
    ];
    assert_eq!(published_count(&records, &found), 1);
}

#[test]
fn status_texts() {
    assert_eq!(line_count("a\nb\r\n\nc"), 4);
    assert_eq!(line_count(""), 0);
    assert_eq!(read_number(" 12\n"), Some(12));
    assert_eq!(read_number("x"), None);
    assert_eq!(main_pid("4242\n"), Some(4242));
    assert_eq!(main_pid("0\n"), None);
    assert_eq!(main_pid(""), None);
    assert_eq!(worker_text("  00:01 chdman\n").as_deref(), Some("00:01 chdman"));
    assert_eq!(worker_text(" \n"), None);
}
