use rom_pipeline::psp_inventory::{
    group_variants, hashes_needed, jobs_from_variants, parse_cache, PspInventory, ScannedImage,
};
use sha2::{Digest, Sha256};

fn content_hash(bytes: &[u8]) -> String {
    Sha256::digest(bytes).iter().map(|byte| format!("{byte:02x}")).collect()
}

fn image(name: &str, size: u64, content: &[u8]) -> ScannedImage {
    ScannedImage {
        name: name.to_owned(),
        size,
        disc_id: "ULUS10055".to_owned(),
        title: "Pac-Man World 3".to_owned(),
        hash: Some(content_hash(content)),
    }
}

#[test]
fn exact_copies_share_one_job_and_use_the_descriptive_name() {
    let scanned = vec![
        image("Pac-Man World 3 (US).iso", 10, b"same image"),
        image("Pac-Man World 3 (USA) (En,Fr).iso", 10, b"same image"),
    ];
    assert_eq!(hashes_needed(&scanned), vec![true, true]);
    let jobs = jobs_from_variants(group_variants(scanned), None);
    assert_eq!(jobs.len(), 1);
    assert_eq!(jobs[0].sources.len(), 2);
    assert_eq!(jobs[0].output_name, "Pac-Man World 3 (USA) (En,Fr).chd");
}

#[test]
fn different_images_with_one_disc_id_remain_separate() {
    let mut first = image("Game.iso", 10, b"revision a");
    let mut second = image("Game Revised.iso", 20, b"revision b is larger");
    first.hash = None;
    second.hash = None;
    let scanned = vec![first, second];
    assert_eq!(hashes_needed(&scanned), vec![false, false]);
    let jobs = jobs_from_variants(group_variants(scanned), None);
    assert_eq!(jobs.len(), 2);
    assert!(jobs.iter().all(|job| job.id.starts_with("ULUS10055-")));
}

#[test]
fn same_size_different_content_stays_apart_with_one_disc_id() {
    let scanned = vec![image("A.iso", 10, b"aaaaaaaaaa"), image("B.iso", 10, b"bbbbbbbbbb")];
    let jobs = jobs_from_variants(group_variants(scanned), None);
    assert_eq!(jobs.len(), 2);
    assert_eq!(jobs[0].display_name, "A");
    assert_eq!(jobs[1].display_name, "B");
}

#[test]
fn single_variant_job_is_named_by_disc_id() {
    let mut only = image("Game.iso", 10, b"x");
    only.hash = None;
    let jobs = jobs_from_variants(group_variants(vec![only]), Some("ulus10055"));
    assert_eq!(jobs.len(), 1);
    assert_eq!(jobs[0].id, "ULUS10055");
    assert_eq!(jobs[0].output_name, "Game.chd");
    assert_eq!(jobs[0].sources[0].title_id, "ULUS10055");
}

#[test]
fn cache_line_is_read_back_only_for_the_same_file() {
    let text = "10\t99\tULUS10055\n";
    let (identity, hash) = parse_cache(text, 10, 99).expect("cache");
    assert_eq!(identity.disc_id, "ULUS10055");
    assert_eq!(hash, None);
    assert!(parse_cache(text, 11, 99).is_none());
    assert!(parse_cache("10\t99\tbad\n", 10, 99).is_none());
}

#[test]
fn every_scanned_image_lands_in_exactly_one_job() {
    let images = vec![
        image("a.iso", 10, b"one"),
        image("b.iso", 10, b"one"),
        image("c.iso", 10, b"two"),
        image("d.iso", 12, b"three"),
    ];
    let names: Vec<String> = images.iter().map(|i| i.name.clone()).collect();
    let inventory = PspInventory::scan(images, None);
    for name in names {
        let holders = inventory
            .jobs
            .iter()
            .filter(|job| job.sources.iter().any(|source| source.name == name))
            .count();
        assert_eq!(holders, 1, "{name}");
    }
    assert_eq!(inventory.jobs.len(), 3);
}
