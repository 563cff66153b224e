//! The calendar stamp shown on a spacer line, and how it is obtained.
//!
//! The core works on plain calendar fields. Only reading the wall clock and
//! resolving an IANA zone name need the outside world; both stand behind
//! trusted wrappers whose contracts state no more than the outside crates
//! document.

use vstd::prelude::*;

use chrono::Datelike;
use chrono::Timelike;
use chrono_tz::OffsetName;

use vstd::string::StringExecFns;

use crate::digits::{four_digit_chars, push_four_digits, push_two_digits, two_digit_chars};
use crate::text::push_char;

verus! {

/// A wall-clock reading as plain calendar fields, with an optional zone
/// abbreviation to display after the time.
pub struct Stamp {
    pub year: i32,
    /// Month number, `1..=12`.
    pub month: u8,
    /// Day of month, `1..=31`.
    pub day: u8,
    /// Hour, `0..=23`.
    pub hour: u8,
    /// Minute, `0..=59`.
    pub minute: u8,
    /// Second, `0..=59`.
    pub second: u8,
    /// The zone abbreviation shown after the time, such as `GMT`, if any.
    pub zone: Option<String>,
}

impl Stamp {
    /// Field ranges of a calendar reading.
    pub open spec fn wf(&self) -> bool {
        &&& 1 <= self.month <= 12
        &&& 1 <= self.day <= 31
        &&& self.hour <= 23
        &&& self.minute <= 59
        &&& self.second <= 59
    }
}

/// The year, zero-padded to four places, with a leading minus sign for years
/// before year zero.
pub open spec fn year_chars(y: int) -> Seq<char> {
    if y < 0 {
        seq!['-'] + four_digit_chars(-y)
    } else {
        four_digit_chars(y)
    }
}

/// The date of `s` as `YYYY-MM-DD`.
pub open spec fn date_chars(s: Stamp) -> Seq<char> {
    year_chars(s.year as int) + seq!['-'] + two_digit_chars(s.month as int) + seq!['-']
        + two_digit_chars(s.day as int)
}

/// The time of day of `s` as `HH:MM:SS`, followed by a space and the zone
/// abbreviation when one is present.
pub open spec fn time_chars(s: Stamp) -> Seq<char> {
    two_digit_chars(s.hour as int) + seq![':'] + two_digit_chars(s.minute as int) + seq![':']
        + two_digit_chars(s.second as int) + (match s.zone {
        Option::Some(z) => seq![' '] + z@,
        Option::None => Seq::<char>::empty(),
    })
}

/// Formats the date of `s` as `YYYY-MM-DD`.
pub fn date_string(s: &Stamp) -> (r: String)
    requires
        s.wf(),
    ensures
        r@ == date_chars(*s),
{
    let mut r = String::new();
    if s.year < 0 {
        push_char(&mut r, '-');
        let mag: u64 = (-(s.year as i64)) as u64;
        push_four_digits(&mut r, mag);
    } else {
        push_four_digits(&mut r, s.year as u64);
    }
    push_char(&mut r, '-');
    push_two_digits(&mut r, s.month as u64);
    push_char(&mut r, '-');
    push_two_digits(&mut r, s.day as u64);
    proof {
        assert(r@ =~= date_chars(*s));
    }
    r
}

/// Formats the time of day of `s` as `HH:MM:SS`, with the zone abbreviation
/// appended after a space when one is present.
pub fn time_string(s: &Stamp) -> (r: String)
    requires
        s.wf(),
    ensures
        r@ == time_chars(*s),
{
    let mut r = String::new();
    push_two_digits(&mut r, s.hour as u64);
    push_char(&mut r, ':');
    push_two_digits(&mut r, s.minute as u64);
    push_char(&mut r, ':');
    push_two_digits(&mut r, s.second as u64);
    match &s.zone {
        Option::Some(z) => {
            push_char(&mut r, ' ');
            r.append(z.as_str());
        },
        Option::None => {},
    }
    proof {
        assert(r@ =~= time_chars(*s));
    }
    r
}

/// Whether the IANA time-zone database bundled with the process knows the
/// given zone name. The answer depends on the name alone.
pub uninterp spec fn zone_parses(name: Seq<char>) -> bool;

/// The current local time as calendar fields.
///
/// Relies on `chrono::Local::now` and on chrono's `Datelike` and `Timelike`
/// accessors, which are documented to return the month in `1..=12`, the day
/// in `1..=31`, the hour in `0..=23`, and the minute and second in `0..=59`.
#[verifier::external_body]
fn local_now() -> (s: Stamp)
    ensures
        s.wf(),
        s.zone is None,
{
    let now = chrono::Local::now();
    Stamp {
        year: now.year(),
        month: now.month() as u8,
        day: now.day() as u8,
        hour: now.hour() as u8,
        minute: now.minute() as u8,
        second: now.second() as u8,
        zone: None,
    }
}

/// The current time in the named IANA zone, as calendar fields plus the
/// zone's abbreviation, or nothing when the name is not a known zone.
///
/// Relies on `chrono_tz::Tz`'s `FromStr`, which succeeds exactly on the names
/// in the bundled zone table, on `chrono::DateTime::with_timezone`, and on
/// the field accessors as in `local_now`. The abbreviation comes from
/// `chrono_tz::OffsetName::abbreviation`, which has one only for zones whose
/// rules name their offsets.
#[verifier::external_body]
fn zone_now(name: &str) -> (r: Option<Stamp>)
    ensures
        r is Some <==> zone_parses(name@),
        r matches Some(s) ==> s.wf(),
{
    let tz: chrono_tz::Tz = match name.parse() {
        Ok(tz) => tz,
        Err(_) => return None,
    };
    let now = chrono::Local::now().with_timezone(&tz);
    let zone = match now.offset().abbreviation() {
        Some(a) => Some(a.to_owned()),
        None => None,
    };
    Some(Stamp { year: now.year(), month: now.month() as u8, day: now.day() as u8,
        hour: now.hour() as u8, minute: now.minute() as u8, second: now.second() as u8, zone })
}

/// The current wall-clock reading for display, in the configured zone when
/// one is given and resolvable, otherwise in local time. The second result
/// says whether a configured zone could not be resolved and local time stood
/// in for it; the caller may warn about it, processing goes on.
pub fn current_stamp(timezone: &Option<String>) -> (r: (Stamp, bool))
    ensures
        r.0.wf(),
        r.1 == match *timezone {
            Option::Some(name) => !zone_parses(name@),
            Option::None => false,
        },
        *timezone is None ==> r.0.zone is None,
{
    match timezone {
        Option::None => (local_now(), false),
        Option::Some(name) => match zone_now(name.as_str()) {
            Option::Some(s) => (s, false),
            Option::None => (local_now(), true),
        },
    }
}

} // verus!
