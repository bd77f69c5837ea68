use thermal_printer::timing::{byte_duration, TimingModel};

#[test]
fn byte_duration_rounds_up() {
    // 11 bits at 19200 baud are 572.9 microseconds
    assert_eq!(byte_duration(19_200), Some(573));
    assert_eq!(byte_duration(9_600), Some(1_146));
    assert_eq!(byte_duration(11_000_000), Some(1));
    assert_eq!(byte_duration(11_000_001), Some(1));
    assert_eq!(byte_duration(1), Some(11_000_000));
    assert_eq!(byte_duration(0), None);
}

#[test]
fn firmware_defaults_are_valid() {
    let t = TimingModel::firmware_defaults();
    assert!(t.is_valid());
    assert_eq!(t.dot_print_us, 20_000);
    assert_eq!(t.dot_feed_us, 2_100);
    assert_eq!(t.byte_us, 573);
    assert_eq!(t.buffer_bytes, 512);
}

#[test]
fn a_model_with_a_zero_constant_is_not_valid() {
    let t = TimingModel::firmware_defaults();
    assert!(!TimingModel { dot_print_us: 0, ..t }.is_valid());
    assert!(!TimingModel { dot_feed_us: 0, ..t }.is_valid());
    assert!(!TimingModel { byte_us: 0, ..t }.is_valid());
    assert!(!TimingModel { buffer_bytes: 0, ..t }.is_valid());
}

#[test]
fn with_baud_changes_the_byte_time_only() {
    let t = TimingModel::firmware_defaults();
    let slow = t.with_baud(9_600).unwrap();
    assert_eq!(slow, TimingModel { byte_us: 1_146, ..t });
    assert_eq!(t.with_baud(0), None);
}

#[test]
fn durations_follow_their_formulas() {
    let t = TimingModel::firmware_defaults();
    // (24 + 6) * 2100
    assert_eq!(t.feed_duration(24, 6), 63_000);
    // 24 * 20000 + 6 * 2100
    assert_eq!(t.text_line_duration(24, 6), 492_600);
    // 2100 * 24
    assert_eq!(t.feed_command_duration(24), 50_400);
    // (50 + 40) * 20000
    assert_eq!(t.barcode_duration(50), 1_800_000);
    // 20000 * 5
    assert_eq!(t.raster_duration(5), 100_000);
    // 20000 * 24 * 26 + 2100 * (6 * 26 + 30)
    assert_eq!(t.test_page_duration(), 12_870_600);
}

#[test]
fn durations_grow_with_the_line_geometry() {
    let t = TimingModel::firmware_defaults();
    assert!(t.feed_duration(24, 6) < t.feed_duration(25, 6));
    assert!(t.feed_duration(24, 6) < t.feed_duration(24, 7));
    assert!(t.text_line_duration(24, 6) < t.text_line_duration(25, 6));
    assert!(t.text_line_duration(24, 6) < t.text_line_duration(24, 7));
    assert_eq!(t.feed_duration(0, 0), 0);
    assert_eq!(t.text_line_duration(0, 0), 0);
}

#[test]
fn durations_do_not_overflow_at_the_limits() {
    let t = TimingModel {
        dot_print_us: u32::MAX,
        dot_feed_us: u32::MAX,
        byte_us: u32::MAX,
        buffer_bytes: u32::MAX,
    };
    assert_eq!(
        t.feed_duration(u16::MAX, u16::MAX),
        2 * 65_535 * (u32::MAX as u64)
    );
    assert_eq!(
        t.text_line_duration(u16::MAX, u16::MAX),
        2 * 65_535 * (u32::MAX as u64)
    );
    assert_eq!(t.test_page_duration(), (624 + 186) * (u32::MAX as u64));
}
