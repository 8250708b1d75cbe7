use bench_rs::{format_duration, format_name, format_ops};

#[test]
fn duration_unit_boundaries() {
    assert_eq!(format_duration(999, 999, false), "999 ns");
    assert_eq!(format_duration(1000, 1000, false), "1.00 µs");
    assert_eq!(format_duration(999_999, 999_999, false), "1000.00 µs");
    assert_eq!(format_duration(1_000_000, 1_000_000, false), "1.00 ms");
    assert_eq!(format_duration(999_999_999, 999_999_999, false), "1000.00 ms");
    assert_eq!(format_duration(1_000_000_000, 1_000_000_000, false), "1.00  s");
}

#[test]
fn duration_unit_follows_the_mean() {
    // the mean picks the unit, the value fills it in
    assert_eq!(format_duration(2500, 500, false), "2500 ns");
    assert_eq!(format_duration(2500, 2000, false), "2.50 µs");
}

#[test]
fn duration_short_form_truncates() {
    assert_eq!(format_duration(1500, 1500, true), "1 µs");
    assert_eq!(format_duration(2_700_000, 2_700_000, true), "2 ms");
    assert_eq!(format_duration(3_999_999_999, 3_999_999_999, true), "3  s");
}

#[test]
fn duration_two_decimals_round_to_nearest() {
    assert_eq!(format_duration(1234, 1234, false), "1.23 µs");
    assert_eq!(format_duration(1236, 1236, false), "1.24 µs");
    assert_eq!(format_duration(1999, 1999, false), "2.00 µs");
}

#[test]
fn ops_scale_by_magnitude() {
    assert_eq!(format_ops(999, true), "999");
    assert_eq!(format_ops(1000, true), "1 K");
    assert_eq!(format_ops(999_499, true), "999 K");
    assert_eq!(format_ops(1_000_000, true), "1 M");
    assert_eq!(format_ops(2_340_000_000, true), "2 B");
}

#[test]
fn ops_round_ties_to_even() {
    assert_eq!(format_ops(1500, true), "2 K");
    assert_eq!(format_ops(2500, true), "2 K");
    assert_eq!(format_ops(3500, true), "4 K");
}

#[test]
fn ops_without_unit_drop_the_suffix() {
    assert_eq!(format_ops(1500, false), "2");
    assert_eq!(format_ops(999, false), "999");
}

#[test]
fn name_prefixes_are_stripped() {
    assert_eq!(format_name("bench_foo"), "foo");
    assert_eq!(format_name("test_foo"), "foo");
    assert_eq!(format_name("bench_test_foo"), "foo");
    assert_eq!(format_name("plain"), "plain");
}

#[test]
fn long_names_are_shortened_in_the_middle() {
    let name = "abcdefghijklmnopqrstuvwxyz0123456789";
    assert_eq!(format_name(name), "abcdefghijklmn...xyz0123456789");
    assert_eq!(format_name(name).chars().count(), 30);
}

#[test]
fn thirty_character_names_stay_whole() {
    let name = "abcdefghijklmnopqrstuvwxyz0123";
    assert_eq!(format_name(name), name);
}
