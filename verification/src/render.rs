//! Pure rendering of one spacer line.
//!
//! A spacer line holds an informational prefix — date, time, and, when
//! enough time has passed since the previous spacer, a humanized elapsed
//! delta — and a run of a fill character sized so the line reaches the
//! target width. With right alignment the fill run comes first and a
//! carriage return precedes it, so an interactive caller can redraw the
//! line in place.

use vstd::prelude::*;

use vstd::string::StrSliceExecFns;
use vstd::string::StringExecFns;

use crate::config::SpacerConfig;
use crate::elapsed::{elapsed_chars, format_elapsed, ELAPSED_MS_LIMIT};
use crate::stamp::{date_chars, date_string, time_chars, time_string, Stamp};
use crate::text::{push_char, repeat_char, repeated_chars};

verus! {

/// The column width used when no terminal width is known.
pub const DEFAULT_WIDTH: u16 = 80;

/// The elapsed-time field appears only when more than this many milliseconds
/// have passed since the previous spacer.
pub const ELAPSED_VISIBLE_MIN_MS: u64 = 100;

/// The width a spacer line aims for: the fixed width when configured, else
/// the detected terminal width, else the default.
pub open spec fn resolved_width(fixed: Option<u16>, detected: Option<u16>) -> int {
    match fixed {
        Option::Some(w) => w as int,
        Option::None => match detected {
            Option::Some(w) => w as int,
            Option::None => DEFAULT_WIDTH as int,
        },
    }
}

/// The informational part of a spacer line: the date, a space, the time,
/// and, when more than a tenth of a second has passed since the previous
/// spacer, another space and the humanized elapsed time.
pub open spec fn info_chars(stamp: Stamp, elapsed_ms: int) -> Seq<char> {
    date_chars(stamp) + seq![' '] + time_chars(stamp) + (if elapsed_ms > ELAPSED_VISIBLE_MIN_MS {
        seq![' '] + elapsed_chars(elapsed_ms)
    } else {
        Seq::<char>::empty()
    })
}

/// How many fill characters the spacer line holds: what remains of the
/// target width after the informational part and one separating space.
pub open spec fn fill_len(
    cfg: SpacerConfig,
    stamp: Stamp,
    elapsed_ms: int,
    detected: Option<u16>,
) -> int {
    let used = info_chars(stamp, elapsed_ms).len() + 1;
    let width = resolved_width(cfg.fixed_width, detected);
    if width > used {
        width - used
    } else {
        0
    }
}

/// One whole spacer line. Left-aligned: information, a space, then the fill
/// run. Right-aligned: a carriage return, the fill run, a space, then the
/// information.
pub open spec fn spacer_line_chars(
    cfg: SpacerConfig,
    stamp: Stamp,
    elapsed_ms: int,
    detected: Option<u16>,
) -> Seq<char> {
    let info = info_chars(stamp, elapsed_ms);
    let fill = repeated_chars(cfg.fill_char, fill_len(cfg, stamp, elapsed_ms, detected));
    if cfg.align_right {
        seq!['\r'] + fill + seq![' '] + info
    } else {
        info + seq![' '] + fill
    }
}

/// The pieces of one spacer line, kept apart so a caller that decorates
/// them (for instance with terminal colors) can reassemble them in the
/// same order.
pub struct SpacerParts {
    /// The date, as `YYYY-MM-DD`.
    pub date: String,
    /// The time of day, as `HH:MM:SS`, with the zone abbreviation when one
    /// is shown.
    pub time: String,
    /// The humanized time since the previous spacer, when it is shown.
    pub elapsed: Option<String>,
    /// The fill run.
    pub fill: String,
    /// Whether the fill run comes first.
    pub align_right: bool,
}

/// The informational part of assembled parts: date, space, time, and the
/// elapsed field after one more space when present.
pub open spec fn parts_info_chars(p: SpacerParts) -> Seq<char> {
    p.date@ + seq![' '] + p.time@ + (match p.elapsed {
        Option::Some(e) => seq![' '] + e@,
        Option::None => Seq::<char>::empty(),
    })
}

/// The line that assembling the parts yields.
pub open spec fn assembled_chars(p: SpacerParts) -> Seq<char> {
    if p.align_right {
        seq!['\r'] + p.fill@ + seq![' '] + parts_info_chars(p)
    } else {
        parts_info_chars(p) + seq![' '] + p.fill@
    }
}

/// `a - b`, stopping at zero.
fn sub_floor(a: usize, b: usize) -> (r: usize)
    ensures
        r == if a > b {
            a - b
        } else {
            0
        },
{
    if a > b {
        a - b
    } else {
        0
    }
}

/// Renders the pieces of one spacer line: the date and time of `stamp`, the
/// humanized `elapsed_ms` when it exceeds a tenth of a second, and a fill
/// run that pads the line to the resolved width.
pub fn spacer_parts(
    cfg: &SpacerConfig,
    stamp: &Stamp,
    elapsed_ms: u64,
    detected_width: Option<u16>,
) -> (p: SpacerParts)
    requires
        stamp.wf(),
        elapsed_ms < ELAPSED_MS_LIMIT,
    ensures
        p.date@ == date_chars(*stamp),
        p.time@ == time_chars(*stamp),
        p.elapsed is Some <==> elapsed_ms > ELAPSED_VISIBLE_MIN_MS,
        p.elapsed matches Some(e) ==> e@ == elapsed_chars(elapsed_ms as int),
        p.fill@ == repeated_chars(
            cfg.fill_char,
            fill_len(*cfg, *stamp, elapsed_ms as int, detected_width),
        ),
        p.align_right == cfg.align_right,
{
    let date = date_string(stamp);
    let time = time_string(stamp);
    let elapsed: Option<String> = if elapsed_ms > ELAPSED_VISIBLE_MIN_MS {
        Option::Some(format_elapsed(elapsed_ms))
    } else {
        Option::None
    };
    let target: u16 = match cfg.fixed_width {
        Option::Some(w) => w,
        Option::None => match detected_width {
            Option::Some(w) => w,
            Option::None => DEFAULT_WIDTH,
        },
    };
    let mut remaining: usize = target as usize;
    remaining = sub_floor(remaining, date.as_str().unicode_len());
    remaining = sub_floor(remaining, 1);
    remaining = sub_floor(remaining, time.as_str().unicode_len());
    match &elapsed {
        Option::Some(e) => {
            remaining = sub_floor(remaining, 1);
            remaining = sub_floor(remaining, e.as_str().unicode_len());
        },
        Option::None => {},
    }
    remaining = sub_floor(remaining, 1);
    proof {
        assert(remaining as int == fill_len(*cfg, *stamp, elapsed_ms as int, detected_width));
    }
    let fill = repeat_char(cfg.fill_char, remaining);
    SpacerParts { date, time, elapsed, fill, align_right: cfg.align_right }
}

/// Joins the pieces of a spacer line back into the line.
pub fn assemble_spacer(p: &SpacerParts) -> (r: String)
    ensures
        r@ == assembled_chars(*p),
{
    let mut r = String::new();
    if p.align_right {
        push_char(&mut r, '\r');
        r.append(p.fill.as_str());
        push_char(&mut r, ' ');
        r.append(p.date.as_str());
        push_char(&mut r, ' ');
        r.append(p.time.as_str());
        match &p.elapsed {
            Option::Some(e) => {
                push_char(&mut r, ' ');
                r.append(e.as_str());
            },
            Option::None => {},
        }
    } else {
        r.append(p.date.as_str());
        push_char(&mut r, ' ');
        r.append(p.time.as_str());
        match &p.elapsed {
            Option::Some(e) => {
                push_char(&mut r, ' ');
                r.append(e.as_str());
            },
            Option::None => {},
        }
        push_char(&mut r, ' ');
        r.append(p.fill.as_str());
    }
    proof {
        assert(r@ =~= assembled_chars(*p));
    }
    r
}

/// Renders one whole spacer line.
pub fn render_spacer(
    cfg: &SpacerConfig,
    stamp: &Stamp,
    elapsed_ms: u64,
    detected_width: Option<u16>,
) -> (r: String)
    requires
        stamp.wf(),
        elapsed_ms < ELAPSED_MS_LIMIT,
    ensures
        r@ == spacer_line_chars(*cfg, *stamp, elapsed_ms as int, detected_width),
{
    let p = spacer_parts(cfg, stamp, elapsed_ms, detected_width);
    let r = assemble_spacer(&p);
    proof {
        assert(parts_info_chars(p) =~= info_chars(*stamp, elapsed_ms as int));
        assert(r@ =~= spacer_line_chars(*cfg, *stamp, elapsed_ms as int, detected_width));
    }
    r
}

/// The current terminal width in columns, when the process has a terminal
/// and it can be measured. Nothing more is promised: the answer depends on
/// where and how the process runs.
///
/// Relies on `terminal_size::terminal_size`.
#[verifier::external_body]
fn detect_terminal_width() -> (r: Option<u16>)
{
    match terminal_size::terminal_size() {
        Some((terminal_size::Width(w), _)) => Some(w),
        None => None,
    }
}

/// Renders one whole spacer line at the width the terminal reports at this
/// moment, and says which width that was: whatever the measurement returned,
/// the line is the spacer line for it.
pub fn render_spacer_now(cfg: &SpacerConfig, stamp: &Stamp, elapsed_ms: u64) -> (r: (
    String,
    Option<u16>,
))
    requires
        stamp.wf(),
        elapsed_ms < ELAPSED_MS_LIMIT,
    ensures
        r.0@ == spacer_line_chars(*cfg, *stamp, elapsed_ms as int, r.1),
{
    let width = detect_terminal_width();
    (render_spacer(cfg, stamp, elapsed_ms, width), width)
}

/// A rendered spacer with its padding: `padding_lines` blank lines, the
/// spacer line itself, then `padding_lines` blank lines again.
pub fn spacer_block(
    cfg: &SpacerConfig,
    stamp: &Stamp,
    elapsed_ms: u64,
    detected_width: Option<u16>,
) -> (r: Vec<String>)
    requires
        stamp.wf(),
        elapsed_ms < ELAPSED_MS_LIMIT,
        cfg.padding_lines <= (usize::MAX - 1) / 2,
    ensures
        r@.len() == 2 * cfg.padding_lines + 1,
        forall|i: int|
            0 <= i < r@.len() && i != cfg.padding_lines ==> r@[i]@ == Seq::<char>::empty(),
        r@[cfg.padding_lines as int]@ == spacer_line_chars(
            *cfg,
            *stamp,
            elapsed_ms as int,
            detected_width,
        ),
{
    let mut r: Vec<String> = Vec::new();
    let mut i: usize = 0;
    while i < cfg.padding_lines
        invariant
            i <= cfg.padding_lines,
            r@.len() == i,
            forall|j: int| 0 <= j < i ==> r@[j]@ == Seq::<char>::empty(),
        decreases cfg.padding_lines - i,
    {
        r.push(String::new());
        i = i + 1;
    }
    r.push(render_spacer(cfg, stamp, elapsed_ms, detected_width));
    let mut i: usize = 0;
    while i < cfg.padding_lines
        invariant
            i <= cfg.padding_lines,
            r@.len() == cfg.padding_lines + 1 + i,
            forall|j: int|
                0 <= j < r@.len() && j != cfg.padding_lines ==> r@[j]@ == Seq::<char>::empty(),
            r@[cfg.padding_lines as int]@ == spacer_line_chars(
                *cfg,
                *stamp,
                elapsed_ms as int,
                detected_width,
            ),
        decreases cfg.padding_lines - i,
    {
        r.push(String::new());
        i = i + 1;
    }
    r
}

} // verus!
