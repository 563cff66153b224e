use spacer::config::SpacerConfig;
use spacer::render::{render_spacer, render_spacer_now, spacer_block};
use spacer::stamp::Stamp;

fn cfg(width: Option<u16>, align_right: bool) -> SpacerConfig {
    SpacerConfig {
        idle_threshold_ms: 100,
        fill_char: '-',
        padding_lines: 0,
        fixed_width: width,
        align_right,
        timezone: None,
    }
}

fn stamp() -> Stamp {
    Stamp { year: 2026, month: 1, day: 2, hour: 3, minute: 4, second: 5, zone: None }
}

#[test]
fn left_spacer_is_info_then_fill() {
    // the prefix "2026-01-02 03:04:05 " takes twenty columns
    let line = render_spacer(&cfg(Some(40), false), &stamp(), 0, None);
    assert_eq!(line, "2026-01-02 03:04:05 --------------------");
}

#[test]
fn fill_run_is_exact() {
    let line = render_spacer(&cfg(Some(30), false), &stamp(), 0, None);
    assert!(line.ends_with("----------"));
    assert!(!line.contains("-----------"));
    assert_eq!(line.chars().count(), 30);
}

#[test]
fn narrow_width_leaves_no_fill() {
    let line = render_spacer(&cfg(Some(10), false), &stamp(), 0, None);
    assert_eq!(line, "2026-01-02 03:04:05 ");
}

#[test]
fn right_spacer_starts_with_fill_run() {
    let line = render_spacer(&cfg(Some(30), true), &stamp(), 0, None);
    let mut chars = line.chars();
    assert_eq!(chars.next(), Some('\r'));
    assert!(line[1..].starts_with("---------- "));
    assert!(line.ends_with("2026-01-02 03:04:05"));
}

#[test]
fn elapsed_hidden_at_a_tenth_second() {
    let line = render_spacer(&cfg(Some(40), false), &stamp(), 100, None);
    assert!(!line.contains("0.1s"));
}

#[test]
fn elapsed_shown_above_a_tenth_second() {
    let line = render_spacer(&cfg(Some(40), false), &stamp(), 300, None);
    assert!(line.contains("2026-01-02 03:04:05 0.3s "));
}

#[test]
fn default_width_is_eighty() {
    let line = render_spacer(&cfg(None, false), &stamp(), 0, None);
    assert_eq!(line.chars().count(), 80);
}

#[test]
fn detected_width_is_used() {
    let line = render_spacer(&cfg(None, false), &stamp(), 0, Some(25));
    assert_eq!(line.chars().count(), 25);
}

#[test]
fn fixed_width_overrides_detected() {
    let line = render_spacer(&cfg(Some(22), false), &stamp(), 0, Some(60));
    assert_eq!(line.chars().count(), 22);
}

#[test]
fn wide_fill_character_repeats() {
    let mut c = cfg(Some(25), false);
    c.fill_char = '━';
    let line = render_spacer(&c, &stamp(), 0, None);
    assert!(line.ends_with("━━━━━"));
    assert_eq!(line.chars().count(), 25);
}

#[test]
fn padding_surrounds_the_spacer() {
    let mut c = cfg(Some(30), false);
    c.padding_lines = 2;
    let block = spacer_block(&c, &stamp(), 0, None);
    assert_eq!(block.len(), 5);
    assert_eq!(block[0], "");
    assert_eq!(block[1], "");
    assert!(block[2].ends_with("----------"));
    assert_eq!(block[3], "");
    assert_eq!(block[4], "");
}

#[test]
fn no_padding_is_one_line() {
    let block = spacer_block(&cfg(Some(30), false), &stamp(), 0, None);
    assert_eq!(block.len(), 1);
}

#[test]
fn live_width_render_matches_the_reported_width() {
    let (line, width) = render_spacer_now(&cfg(None, false), &stamp(), 0);
    assert_eq!(line.chars().count() as u16, width.unwrap_or(80));
}

#[test]
fn live_width_render_keeps_a_fixed_width() {
    let (line, _) = render_spacer_now(&cfg(Some(33), false), &stamp(), 0);
    assert_eq!(line.chars().count(), 33);
}
