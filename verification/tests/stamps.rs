use spacer::stamp::{current_stamp, date_string, time_string, Stamp};

fn stamp(year: i32, month: u8, day: u8, hour: u8, minute: u8, second: u8) -> Stamp {
    Stamp { year, month, day, hour, minute, second, zone: None }
}

#[test]
fn date_formats_padded() {
    assert_eq!(date_string(&stamp(2026, 1, 2, 0, 0, 0)), "2026-01-02");
}

#[test]
fn date_pads_small_years() {
    assert_eq!(date_string(&stamp(33, 12, 31, 0, 0, 0)), "0033-12-31");
}

#[test]
fn date_keeps_negative_years() {
    assert_eq!(date_string(&stamp(-44, 3, 15, 0, 0, 0)), "-0044-03-15");
}

#[test]
fn time_formats_padded() {
    assert_eq!(time_string(&stamp(2026, 1, 2, 3, 4, 5)), "03:04:05");
}

#[test]
fn time_appends_zone_abbreviation() {
    let mut s = stamp(2026, 1, 2, 3, 4, 5);
    s.zone = Some("GMT".to_string());
    assert_eq!(time_string(&s), "03:04:05 GMT");
}

#[test]
fn current_stamp_local_is_in_range() {
    let (s, fell_back) = current_stamp(&None);
    assert!(!fell_back);
    assert!(s.zone.is_none());
    assert!((1..=12).contains(&s.month));
    assert!((1..=31).contains(&s.day));
    assert!(s.hour <= 23);
    assert!(s.minute <= 59);
    assert!(s.second <= 59);
}

#[test]
fn current_stamp_unknown_zone_falls_back() {
    let (s, fell_back) = current_stamp(&Some("Nowhere/AtAll".to_string()));
    assert!(fell_back);
    assert!((1..=12).contains(&s.month));
}

#[test]
fn current_stamp_london_resolves() {
    let (s, fell_back) = current_stamp(&Some("Europe/London".to_string()));
    assert!(!fell_back);
    let zone = s.zone.expect("a named zone carries an abbreviation");
    assert!(zone == "GMT" || zone == "BST", "unexpected abbreviation {zone}");
}
