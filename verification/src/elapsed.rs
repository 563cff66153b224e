//! Humanized elapsed-time formatting.
//!
//! An elapsed duration, measured in whole milliseconds, is shown in the
//! largest unit whose value reaches one, in the order years (365 days),
//! months (30 days), weeks, days, hours, minutes, seconds, with exactly one
//! decimal digit and a short unit suffix: `1.5m`, `2.0h`, `1.0y`.

use vstd::prelude::*;

use crate::digits::{dec_chars, digit_char, push_dec_u64};
use crate::text::push_char;

verus! {

pub const MS_PER_SECOND: u64 = 1000;

pub const MS_PER_MINUTE: u64 = 60000;

pub const MS_PER_HOUR: u64 = 3600000;

pub const MS_PER_DAY: u64 = 86400000;

pub const MS_PER_WEEK: u64 = 604800000;

/// One month counts as thirty days.
pub const MS_PER_MONTH: u64 = 2592000000;

/// One year counts as three hundred and sixty-five days.
pub const MS_PER_YEAR: u64 = 31536000000;

/// The largest elapsed value the formatter accepts, in milliseconds: the
/// scaling below multiplies by ten and must stay within a machine word.
pub const ELAPSED_MS_LIMIT: u64 = 0x1000000000000000;

/// `ms` in tenths of `unit`, rounded to the nearest tenth, halves up.
pub open spec fn tenths_of(ms: int, unit: int) -> int {
    (10 * ms + unit / 2) / unit
}

/// The digits `<whole>.<tenth>` of `ms` measured in `unit`.
pub open spec fn scaled_chars(ms: int, unit: int) -> Seq<char> {
    dec_chars((tenths_of(ms, unit) / 10) as nat) + seq!['.', digit_char(tenths_of(ms, unit) % 10)]
}

/// The humanized form of an elapsed duration of `ms` milliseconds: the value
/// in the largest unit that reaches one, with one decimal digit and the
/// unit's suffix.
pub open spec fn elapsed_chars(ms: int) -> Seq<char> {
    if ms >= MS_PER_YEAR {
        scaled_chars(ms, MS_PER_YEAR as int) + seq!['y']
    } else if ms >= MS_PER_MONTH {
        scaled_chars(ms, MS_PER_MONTH as int) + seq!['m', 'o']
    } else if ms >= MS_PER_WEEK {
        scaled_chars(ms, MS_PER_WEEK as int) + seq!['w']
    } else if ms >= MS_PER_DAY {
        scaled_chars(ms, MS_PER_DAY as int) + seq!['d']
    } else if ms >= MS_PER_HOUR {
        scaled_chars(ms, MS_PER_HOUR as int) + seq!['h']
    } else if ms >= MS_PER_MINUTE {
        scaled_chars(ms, MS_PER_MINUTE as int) + seq!['m']
    } else {
        scaled_chars(ms, MS_PER_SECOND as int) + seq!['s']
    }
}

/// Appends `ms` in tenths of `unit` as `<whole>.<tenth>`.
fn push_scaled(out: &mut String, ms: u64, unit: u64)
    requires
        ms < ELAPSED_MS_LIMIT,
        0 < unit <= MS_PER_YEAR,
    ensures
        final(out)@ == old(out)@ + scaled_chars(ms as int, unit as int),
{
    let tenths: u64 = (10 * ms + unit / 2) / unit;
    push_dec_u64(out, tenths / 10);
    push_char(out, '.');
    let d = tenths % 10;
    if d == 0 {
        push_char(out, '0');
    } else if d == 1 {
        push_char(out, '1');
    } else if d == 2 {
        push_char(out, '2');
    } else if d == 3 {
        push_char(out, '3');
    } else if d == 4 {
        push_char(out, '4');
    } else if d == 5 {
        push_char(out, '5');
    } else if d == 6 {
        push_char(out, '6');
    } else if d == 7 {
        push_char(out, '7');
    } else if d == 8 {
        push_char(out, '8');
    } else {
        push_char(out, '9');
    }
    proof {
        assert(out@ =~= old(out)@ + scaled_chars(ms as int, unit as int));
    }
}

/// The humanized form of an elapsed duration of `ms` milliseconds.
pub fn format_elapsed(ms: u64) -> (r: String)
    requires
        ms < ELAPSED_MS_LIMIT,
    ensures
        r@ == elapsed_chars(ms as int),
{
    let mut r = String::new();
    if ms >= MS_PER_YEAR {
        push_scaled(&mut r, ms, MS_PER_YEAR);
        push_char(&mut r, 'y');
    } else if ms >= MS_PER_MONTH {
        push_scaled(&mut r, ms, MS_PER_MONTH);
        push_char(&mut r, 'm');
        push_char(&mut r, 'o');
    } else if ms >= MS_PER_WEEK {
        push_scaled(&mut r, ms, MS_PER_WEEK);
        push_char(&mut r, 'w');
    } else if ms >= MS_PER_DAY {
        push_scaled(&mut r, ms, MS_PER_DAY);
        push_char(&mut r, 'd');
    } else if ms >= MS_PER_HOUR {
        push_scaled(&mut r, ms, MS_PER_HOUR);
        push_char(&mut r, 'h');
    } else if ms >= MS_PER_MINUTE {
        push_scaled(&mut r, ms, MS_PER_MINUTE);
        push_char(&mut r, 'm');
    } else {
        push_scaled(&mut r, ms, MS_PER_SECOND);
        push_char(&mut r, 's');
    }
    proof {
        assert(r@ =~= elapsed_chars(ms as int));
    }
    r
}

} // verus!
