//! The shared clock state and the spacer clock's decision rule.
//!
//! Instants are whole milliseconds on a monotonic clock that starts at zero
//! when the run starts; only differences between instants carry meaning.
//! The line relay advances `last_line_ms` on every input line; the spacer
//! clock advances `last_spacer_ms` whenever it renders. Each iteration of
//! the spacer clock reads the state once and lets [`poll_step`] decide
//! whether to exit, sleep, or render.

use vstd::prelude::*;

verus! {

/// The spacer clock never sleeps less than this many milliseconds, so that
/// a nearly elapsed threshold cannot make it spin.
pub const MIN_SLEEP_MS: u64 = 10;

/// The record shared between the line relay and the spacer clock: when the
/// last input line arrived, when the last spacer was rendered, and whether
/// the input has ended.
///
/// Both timestamps only grow, and `finished` moves once from false to true;
/// the mutating methods keep it that way.
pub struct ClockState {
    /// When the last input line arrived; at startup, the start instant.
    pub last_line_ms: u64,
    /// When the last spacer finished rendering; at startup, the start
    /// instant.
    pub last_spacer_ms: u64,
    /// Whether the input has ended.
    pub finished: bool,
}

impl ClockState {
    /// The state at startup: both timestamps read `now_ms`, the input has
    /// not ended.
    pub fn new(now_ms: u64) -> (s: ClockState)
        ensures
            s.last_line_ms == now_ms,
            s.last_spacer_ms == now_ms,
            !s.finished,
    {
        ClockState { last_line_ms: now_ms, last_spacer_ms: now_ms, finished: false }
    }

    /// When the last input line arrived.
    pub fn read_line_time(&self) -> (t: u64)
        ensures
            t == self.last_line_ms,
    {
        self.last_line_ms
    }

    /// When the last spacer was rendered.
    pub fn read_spacer_time(&self) -> (t: u64)
        ensures
            t == self.last_spacer_ms,
    {
        self.last_spacer_ms
    }

    /// Records that an input line arrived at `now_ms`. Time does not run
    /// backwards, so the new reading must not precede the old one.
    pub fn set_line_time(&mut self, now_ms: u64)
        requires
            old(self).last_line_ms <= now_ms,
        ensures
            final(self).last_line_ms == now_ms,
            final(self).last_spacer_ms == old(self).last_spacer_ms,
            final(self).finished == old(self).finished,
    {
        self.last_line_ms = now_ms;
    }

    /// Records that a spacer finished rendering at `now_ms`.
    pub fn set_spacer_time(&mut self, now_ms: u64)
        requires
            old(self).last_spacer_ms <= now_ms,
        ensures
            final(self).last_spacer_ms == now_ms,
            final(self).last_line_ms == old(self).last_line_ms,
            final(self).finished == old(self).finished,
    {
        self.last_spacer_ms = now_ms;
    }

    /// Records that the input has ended. Never undone.
    pub fn mark_finished(&mut self)
        ensures
            final(self).finished,
            final(self).last_line_ms == old(self).last_line_ms,
            final(self).last_spacer_ms == old(self).last_spacer_ms,
    {
        self.finished = true;
    }

    /// Whether the input has ended.
    pub fn is_finished(&self) -> (b: bool)
        ensures
            b == self.finished,
    {
        self.finished
    }
}

/// What one iteration of the spacer clock does next.
#[derive(PartialEq, Eq, Structural, Clone, Copy, Debug)]
pub enum ClockAction {
    /// The input has ended: leave the loop, render nothing further.
    Exit,
    /// Nothing to do yet: sleep this many milliseconds, then poll again.
    Sleep(u64),
    /// The idle threshold has elapsed since the last line: render a spacer
    /// now, record its time, then sleep a full threshold.
    Render,
}

/// How long a clock that saw `elapsed_ms` of the threshold `threshold_ms`
/// pass still sleeps: the remainder, but never less than [`MIN_SLEEP_MS`].
pub open spec fn counting_sleep_ms(threshold_ms: int, elapsed_ms: int) -> int {
    if threshold_ms - elapsed_ms > MIN_SLEEP_MS {
        threshold_ms - elapsed_ms
    } else {
        MIN_SLEEP_MS as int
    }
}

/// One decision of the spacer clock, given the state it read and the
/// current instant `now_ms`.
///
/// When the input has ended the clock exits. When no line has arrived
/// since the last spacer the clock is idle and sleeps a full threshold:
/// nothing can become due before a new line arrives. When a line has
/// arrived and a full threshold has passed since it, a spacer is due.
/// Otherwise the clock is counting and sleeps until the threshold would
/// elapse, but never less than [`MIN_SLEEP_MS`].
pub fn poll_step(state: &ClockState, now_ms: u64, threshold_ms: u64) -> (a: ClockAction)
    requires
        state.last_line_ms <= now_ms,
        1 <= threshold_ms,
    ensures
        a == ClockAction::Exit <==> state.finished,
        !state.finished && state.last_spacer_ms >= state.last_line_ms ==> a == ClockAction::Sleep(
            threshold_ms,
        ),
        !state.finished && state.last_spacer_ms < state.last_line_ms && now_ms
            - state.last_line_ms >= threshold_ms ==> a == ClockAction::Render,
        !state.finished && state.last_spacer_ms < state.last_line_ms && now_ms
            - state.last_line_ms < threshold_ms ==> a == ClockAction::Sleep(
            counting_sleep_ms(threshold_ms as int, now_ms - state.last_line_ms) as u64,
        ),
{
    if state.is_finished() {
        return ClockAction::Exit;
    }
    let last_line = state.read_line_time();
    let last_spacer = state.read_spacer_time();
    if last_spacer >= last_line {
        return ClockAction::Sleep(threshold_ms);
    }
    let elapsed = now_ms - last_line;
    if elapsed >= threshold_ms {
        ClockAction::Render
    } else {
        let remainder = threshold_ms - elapsed;
        if remainder > MIN_SLEEP_MS {
            ClockAction::Sleep(remainder)
        } else {
            ClockAction::Sleep(MIN_SLEEP_MS)
        }
    }
}

} // verus!
