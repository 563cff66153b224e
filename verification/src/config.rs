//! The immutable configuration shared by the line relay and the spacer clock.

use vstd::prelude::*;

verus! {

/// Configuration for spacer rendering and timing, fixed for the process
/// lifetime and read-only for both the relay and the clock.
#[derive(Clone)]
pub struct SpacerConfig {
    /// Minimum idle time, in milliseconds, before a spacer becomes due.
    pub idle_threshold_ms: u64,
    /// The character whose repetition fills the spacer line.
    pub fill_char: char,
    /// Blank lines printed before and after each spacer line.
    pub padding_lines: usize,
    /// A fixed column width that overrides the detected terminal width.
    pub fixed_width: Option<u16>,
    /// Whether the timestamp stands at the right end of the spacer line.
    pub align_right: bool,
    /// An IANA zone name for the displayed time; unresolvable names fall
    /// back to local time.
    pub timezone: Option<String>,
}

impl SpacerConfig {
    /// A configuration is well formed when the idle threshold is positive:
    /// a zero threshold would make the clock spin without ever waiting.
    pub open spec fn wf(&self) -> bool {
        self.idle_threshold_ms >= 1
    }
}

} // verus!
