use dlprogress::byte_format::byte_unit;

#[test]
fn byte_unit_zero_bytes() {
    let (value, unit) = byte_unit(0);
    assert_eq!(value, 0); // 0.00
    assert_eq!(unit, "B");
}

#[test]
fn byte_unit_one_kilobyte() {
    let (value, unit) = byte_unit(1024);
    assert_eq!(value, 100); // 1.00
    assert_eq!(unit, "KB");
}

#[test]
fn byte_unit_fractional_kilobyte() {
    let (value, unit) = byte_unit(1536);
    assert_eq!(value, 150); // 1.50
    assert_eq!(unit, "KB");
}

#[test]
fn byte_unit_just_below_scaling() {
    let (value, unit) = byte_unit(1023);
    assert_eq!(value, 102300); // 1023.00
    assert_eq!(unit, "B");
}

#[test]
fn byte_unit_walks_the_table() {
    assert_eq!(byte_unit(1).1, "B");
    assert_eq!(byte_unit(1024 * 1024).1, "MB");
    assert_eq!(byte_unit(1024 * 1024 * 1024).1, "GB");
    assert_eq!(byte_unit(1024u64.pow(4)).1, "TB");
    assert_eq!(byte_unit(1024u64.pow(5)).1, "PB");
}

#[test]
fn byte_unit_value_in_range_below_largest_unit() {
    let units = ["B", "KB", "MB", "GB", "TB", "PB"];
    let samples: [u64; 8] = [
        0,
        1,
        1023,
        1024,
        1048575,
        1048576,
        1024u64.pow(4) + 17,
        123_456_789_012,
    ];
    for bytes in samples {
        let (value, unit) = byte_unit(bytes);
        assert!(units.contains(&unit));
        if unit != "PB" {
            assert!(value < 102400); // scaled value below 1024 units
        }
    }
}

#[test]
fn byte_unit_saturates_at_largest_unit() {
    let (value, unit) = byte_unit(u64::MAX);
    assert_eq!(unit, "PB");
    assert!(value >= 102400); // may exceed 1024 units at the last entry
}
