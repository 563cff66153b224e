use spacer::config::SpacerConfig;
use spacer::engine::{run_timeline, Event, OutLine, TestStats};
use spacer::stamp::Stamp;

fn cfg() -> SpacerConfig {
    SpacerConfig {
        idle_threshold_ms: 100,
        fill_char: '-',
        padding_lines: 0,
        fixed_width: Some(40),
        align_right: false,
        timezone: None,
    }
}

fn stamp() -> Stamp {
    Stamp { year: 2026, month: 1, day: 2, hour: 3, minute: 4, second: 5, zone: None }
}

fn line(at_ms: u64, text: &str) -> Event {
    Event { at_ms, text: text.to_string() }
}

fn text_of(item: &OutLine) -> Option<&str> {
    match item {
        OutLine::Text(t) => Some(t.as_str()),
        OutLine::Spacer(_) => None,
    }
}

#[test]
fn fresh_stats_are_zero() {
    assert_eq!(TestStats::new().wakeups, 0);
}

#[test]
fn single_line_then_idle_gets_one_spacer() {
    // one line, then three hundred idle milliseconds at a hundred threshold
    let events = vec![line(50, "foo")];
    let out = run_timeline(&events, 350, &cfg(), &stamp(), None);
    assert_eq!(out.items.len(), 2);
    assert_eq!(text_of(&out.items[0]), Some("foo"));
    match &out.items[1] {
        OutLine::Spacer(s) => {
            // the fill run ends the line
            assert!(s.ends_with("---------------"));
            assert_eq!(s.chars().count(), 40);
        },
        OutLine::Text(t) => panic!("expected a spacer, got the line {t}"),
    }
    // the spacer is stamped with its render instant: a threshold after the
    // line, within the minimum sleep
    assert_eq!(out.spacer_times.len(), 1);
    let t0 = out.spacer_times[0];
    assert!((150..160).contains(&t0), "spacer at {t0}");
    assert_eq!(out.spacer_positions, vec![1]);
}

#[test]
fn steady_lines_get_no_spacer() {
    let events = vec![line(10, "foo"), line(20, "bar"), line(30, "baz")];
    let out = run_timeline(&events, 40, &cfg(), &stamp(), None);
    assert_eq!(out.items.len(), 3);
    assert_eq!(text_of(&out.items[0]), Some("foo"));
    assert_eq!(text_of(&out.items[1]), Some("bar"));
    assert_eq!(text_of(&out.items[2]), Some("baz"));
    assert!(out.spacer_times.is_empty());
}

#[test]
fn right_aligned_spacer_begins_with_the_fill_run() {
    let mut c = cfg();
    c.align_right = true;
    c.fixed_width = Some(30);
    let events = vec![line(50, "foo")];
    let out = run_timeline(&events, 350, &c, &stamp(), None);
    assert_eq!(out.items.len(), 2);
    match &out.items[1] {
        OutLine::Spacer(s) => {
            assert!(s.starts_with('\r'));
            assert!(s[1..].starts_with('-'), "fill run must lead: {s:?}");
            assert!(!s[1..].starts_with("2026"));
        },
        OutLine::Text(t) => panic!("expected a spacer, got the line {t}"),
    }
}

#[test]
fn a_gap_between_lines_holds_exactly_one_spacer() {
    let events = vec![line(50, "foo"), line(300, "bar")];
    let out = run_timeline(&events, 350, &cfg(), &stamp(), None);
    assert_eq!(out.items.len(), 3);
    assert_eq!(text_of(&out.items[0]), Some("foo"));
    assert!(text_of(&out.items[1]).is_none());
    assert_eq!(text_of(&out.items[2]), Some("bar"));
    assert_eq!(out.spacer_times.len(), 1);
    assert!(out.spacer_times[0] > 50 && out.spacer_times[0] < 300);
}

#[test]
fn back_to_back_gaps_each_get_a_spacer() {
    let events = vec![line(50, "foo"), line(300, "bar"), line(301, "baz")];
    let out = run_timeline(&events, 650, &cfg(), &stamp(), None);
    assert_eq!(out.spacer_times.len(), 2);
    // one spacer inside the gap, one after the last line
    assert!(out.spacer_times[0] > 50 && out.spacer_times[0] < 300);
    assert!(out.spacer_times[1] > 301);
    // spacers are more than a threshold apart
    assert!(out.spacer_times[1] >= out.spacer_times[0] + 100);
    let texts: Vec<_> = out.items.iter().filter_map(text_of).collect();
    assert_eq!(texts, vec!["foo", "bar", "baz"]);
}

#[test]
fn second_spacer_shows_the_time_since_the_first() {
    let events = vec![line(50, "foo"), line(300, "bar")];
    let out = run_timeline(&events, 650, &cfg(), &stamp(), None);
    assert_eq!(out.spacer_times.len(), 2);
    match &out.items[out.spacer_positions[1]] {
        OutLine::Spacer(s) => {
            // roughly a quarter second since the previous spacer
            assert!(s.contains("0.3s") || s.contains("0.2s"), "delta missing: {s:?}");
        },
        OutLine::Text(t) => panic!("expected a spacer, got the line {t}"),
    }
}

#[test]
fn an_empty_run_stays_silent() {
    // nothing arrives: the clock idles from start to end without rendering
    let out = run_timeline(&Vec::new(), 300, &cfg(), &stamp(), None);
    assert!(out.items.is_empty());
    assert!(out.spacer_times.is_empty());
}

#[test]
fn wakeups_stay_bounded() {
    let events = vec![line(50, "foo"), line(300, "bar"), line(301, "baz")];
    let out = run_timeline(&events, 1000, &cfg(), &stamp(), None);
    // the proved bound: one wake per line plus one per threshold of run
    // time, and a constant
    let bound = (events.len() as u64) * 100 + 1000 + 3 * 100;
    assert!((out.stats.wakeups as u64) * 100 <= bound);
}
