//! Relays lines of text from an input stream to an output stream unchanged,
//! inserting a decorative, timestamped "spacer" line whenever the input has
//! been idle longer than a configured threshold.
//!
//! The crate holds the verified core: the clock state shared between the line
//! relay and the background spacer clock, the decision rule that says when a
//! spacer is due, the pure rendering of a spacer line, and a deterministic
//! engine that interleaves relayed lines and spacers under an explicit
//! schedule. Reading input, writing output, and querying the wall clock stay
//! with the caller; the few places where the core needs an outside fact (the
//! current calendar time, a terminal width) are isolated in small trusted
//! wrappers.

pub mod clock;
pub mod config;
pub mod digits;
pub mod elapsed;
pub mod engine;
pub mod laws;
pub mod render;
pub mod stamp;
pub mod text;
