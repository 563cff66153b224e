use spacer::elapsed::format_elapsed;

#[test]
fn humanize_seconds() {
    assert_eq!(format_elapsed(45_000), "45.0s");
}

#[test]
fn humanize_minutes() {
    assert_eq!(format_elapsed(90_000), "1.5m");
}

#[test]
fn humanize_hours() {
    assert_eq!(format_elapsed(7_200_000), "2.0h");
}

#[test]
fn humanize_days() {
    assert_eq!(format_elapsed(172_800_000), "2.0d");
}

#[test]
fn humanize_weeks() {
    assert_eq!(format_elapsed(7 * 86_400_000), "1.0w");
}

#[test]
fn humanize_months() {
    assert_eq!(format_elapsed(30 * 86_400_000), "1.0mo");
}

#[test]
fn humanize_years() {
    assert_eq!(format_elapsed(365 * 86_400_000), "1.0y");
}

#[test]
fn humanize_sub_second() {
    assert_eq!(format_elapsed(500), "0.5s");
}

#[test]
fn humanize_zero() {
    assert_eq!(format_elapsed(0), "0.0s");
}

#[test]
fn humanize_rounds_to_tenths() {
    // 61.5 seconds is 1.025 minutes, which rounds down to one decimal digit
    assert_eq!(format_elapsed(61_500), "1.0m");
    // 99 seconds is 1.65 minutes; the half tenth rounds up
    assert_eq!(format_elapsed(99_000), "1.7m");
}

#[test]
fn humanize_prefers_largest_unit() {
    // just under one minute stays in seconds
    assert_eq!(format_elapsed(59_999), "60.0s");
    // exactly one minute switches units
    assert_eq!(format_elapsed(60_000), "1.0m");
}
