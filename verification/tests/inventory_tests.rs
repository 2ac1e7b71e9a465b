use rom_pipeline::manifest::{GameCubeInventory, Nintendo3dsInventory, Ps2Inventory};

#[test]
fn inventories_only_iso_images_with_stable_ids() {
    let inventory =
        GameCubeInventory::parse("1459978240\tGame.iso\n12\tmetadata.xml\n", None).expect("inventory");
    assert_eq!(inventory.jobs.len(), 1);
    assert!(inventory.jobs[0].id.starts_with("GC-"));
    assert_eq!(inventory.jobs[0].output_name, "Game.rvz");
}

#[test]
fn only_filter_preserves_duplicate_output_numbering() {
    let manifest = "100\tGame.iso\n200\tGame.ISO\n";
    let all = GameCubeInventory::parse(manifest, None).expect("all inventory");
    let selected = GameCubeInventory::parse(manifest, Some(&all.jobs[1].id)).expect("selected");
    assert_eq!(selected.jobs[0].output_name, "Game-2.rvz");
}

#[test]
fn inventories_only_disc_images_with_stable_ids() {
    let inventory = Ps2Inventory::parse("100\tGame.iso\n200\tDisc.bin\n12\tmetadata.xml\n", None)
        .expect("inventory");
    assert_eq!(inventory.jobs.len(), 2);
    assert!(inventory.jobs[0].id.starts_with("PS2-"));
    assert_eq!(inventory.jobs[0].output_name, "Game.chd");
}

#[test]
fn inventory_only_filter_preserves_duplicate_output_numbering() {
    let manifest = "100\tGame.iso\n200\tGame.bin\n";
    let all = Ps2Inventory::parse(manifest, None).expect("all inventory");
    let selected = Ps2Inventory::parse(manifest, Some(&all.jobs[1].id)).expect("selected inventory");
    assert_eq!(selected.jobs[0].output_name, "Game-2.chd");
}

#[test]
fn inventory_allows_published_iso_alongside_done_source() {
    let inventory = Ps2Inventory::parse("8\tGame.iso\n", None).expect("inventory");
    assert_eq!(inventory.jobs.len(), 1);
}

#[test]
fn manifest_inventory_is_stable_and_filters_non_zip_files() {
    let inventory =
        Nintendo3dsInventory::parse("20\tB.zip\n10\tA.zip\n2\treadme.txt\n", None).expect("inventory");
    assert_eq!(inventory.jobs.len(), 2);
    assert_eq!(inventory.jobs[0].output_name, "A.cia");
    assert_eq!(inventory.jobs[1].output_name, "B.cia");
}
