use spacer::clock::{poll_step, ClockAction, ClockState, MIN_SLEEP_MS};

#[test]
fn new_state_reads_back() {
    let s = ClockState::new(7);
    assert_eq!(s.read_line_time(), 7);
    assert_eq!(s.read_spacer_time(), 7);
    assert!(!s.is_finished());
}

#[test]
fn timestamps_advance() {
    let mut s = ClockState::new(0);
    s.set_line_time(40);
    s.set_spacer_time(25);
    assert_eq!(s.read_line_time(), 40);
    assert_eq!(s.read_spacer_time(), 25);
}

#[test]
fn finishing_is_recorded() {
    let mut s = ClockState::new(0);
    s.mark_finished();
    assert!(s.is_finished());
}

#[test]
fn poll_exits_when_finished() {
    let mut s = ClockState::new(0);
    s.set_line_time(50);
    s.mark_finished();
    assert_eq!(poll_step(&s, 500, 100), ClockAction::Exit);
}

#[test]
fn poll_idles_a_full_threshold_without_new_lines() {
    // the spacer is at least as new as the last line: nothing can become
    // due before another line arrives
    let s = ClockState::new(0);
    assert_eq!(poll_step(&s, 500, 100), ClockAction::Sleep(100));
}

#[test]
fn poll_renders_once_the_threshold_elapsed() {
    let mut s = ClockState::new(0);
    s.set_line_time(50);
    assert_eq!(poll_step(&s, 150, 100), ClockAction::Render);
}

#[test]
fn poll_counts_down_to_the_due_instant() {
    let mut s = ClockState::new(0);
    s.set_line_time(50);
    assert_eq!(poll_step(&s, 80, 100), ClockAction::Sleep(70));
}

#[test]
fn poll_never_sleeps_under_the_minimum() {
    let mut s = ClockState::new(0);
    s.set_line_time(50);
    assert_eq!(poll_step(&s, 148, 100), ClockAction::Sleep(MIN_SLEEP_MS));
}
