use rom_pipeline::service::savings_percent;

#[test]
fn savings_percentage_is_bounded_and_truncated() {
    assert_eq!(savings_percent(100, 80), 20);
    assert_eq!(savings_percent(100, 101), 0);
    assert_eq!(savings_percent(0, 0), 0);
}

#[test]
fn process_savings_percentage_is_bounded_and_truncated() {
    assert_eq!(savings_percent(100, 80), 20);
    assert_eq!(savings_percent(100, 101), 0);
    assert_eq!(savings_percent(0, 0), 0);
}
