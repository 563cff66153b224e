//! A deterministic run of the relay and the spacer clock.
//!
//! The two tasks share one timeline measured in milliseconds from startup.
//! [`run_timeline`] plays a whole run: input lines arrive at given instants,
//! the spacer clock polls, sleeps and renders exactly as [`crate::clock`]
//! decides, and every output line — relayed text or spacer — lands in one
//! ordered list. Ties are resolved the one way the relay's ordering allows:
//! a line that arrives at a poll instant is relayed, and its timestamp
//! recorded, before the clock reads the state.
//!
//! The contract of [`run_timeline`] pins the output down: relayed lines
//! come through unchanged and in order; every spacer's content, instant and
//! position are fixed; a spacer renders only once a full idle threshold has
//! passed since the last line, at most one spacer stands in any idle gap,
//! and any gap longer than the threshold plus the minimum sleep holds
//! exactly one; and the number of clock wakeups stays within a constant
//! factor of the idle time over the threshold.

use vstd::prelude::*;

use crate::clock::{poll_step, ClockAction, ClockState, MIN_SLEEP_MS};
use crate::config::SpacerConfig;
use crate::render::{render_spacer, spacer_line_chars};
use crate::stamp::Stamp;

verus! {

/// An input line and the instant it arrived, in milliseconds from startup.
pub struct Event {
    /// When the line arrived. Always after startup, so at least one.
    pub at_ms: u64,
    /// The line's text, without its terminator.
    pub text: String,
}

/// One output line of a run.
#[derive(Debug)]
pub enum OutLine {
    /// A relayed input line, unchanged.
    Text(String),
    /// A rendered spacer line.
    Spacer(String),
}

/// Counters kept for observing a run; nothing in the run depends on them.
pub struct TestStats {
    /// How often the spacer clock woke and polled.
    pub wakeups: usize,
}

impl TestStats {
    /// Fresh counters, all zero.
    pub fn new() -> (s: Self)
        ensures
            s.wakeups == 0,
    {
        Self { wakeups: 0 }
    }
}

/// Everything a run produced.
pub struct RunOutput {
    /// The output lines, relayed text and spacers, in output order.
    pub items: Vec<OutLine>,
    /// The render instant of each spacer, in output order.
    pub spacer_times: Vec<u64>,
    /// The index in `items` of each spacer, in output order.
    pub spacer_positions: Vec<usize>,
    /// Counters observed during the run.
    pub stats: TestStats,
}

/// The texts of the relayed lines in `items`, in order.
pub open spec fn texts_of(items: Seq<OutLine>) -> Seq<Seq<char>>
    decreases items.len(),
{
    if items.len() == 0 {
        Seq::empty()
    } else {
        texts_of(items.drop_last()) + (match items.last() {
            OutLine::Text(t) => seq![t@],
            OutLine::Spacer(_) => Seq::<Seq<char>>::empty(),
        })
    }
}

/// The texts of the given events, in order.
pub open spec fn event_texts(events: Seq<Event>) -> Seq<Seq<char>>
    decreases events.len(),
{
    if events.len() == 0 {
        Seq::empty()
    } else {
        event_texts(events.drop_last()) + seq![events.last().text@]
    }
}

/// The instant of the spacer before the `k`-th one, or the start instant
/// zero for the first.
pub open spec fn prev_spacer_time(times: Seq<u64>, k: int) -> int {
    if k == 0 {
        0
    } else {
        times[k - 1] as int
    }
}

/// Why a spacer at instant `time` was due: some line — the last one at or
/// before `time` — arrived after the previous spacer at `prev`, a full
/// threshold `t` had passed since that line, the render came within the
/// minimum sleep of becoming due, and exactly the lines up to that one,
/// `texts` of them, had been relayed.
#[verifier::opaque]
pub open spec fn spacer_due_at(
    events: Seq<Event>,
    t: int,
    prev: int,
    time: int,
    texts: int,
) -> bool {
    exists|j: int|
        0 <= j < events.len() && prev < events[j].at_ms && events[j].at_ms + t <= time && time
            < events[j].at_ms + t + MIN_SLEEP_MS && (forall|j2: int|
            j < j2 < events.len() ==> events[j2].at_ms > time) && texts == j + 1
}

/// Picks the line that made a spacer due and hands out what holds of it.
pub proof fn lemma_due_witness(
    events: Seq<Event>,
    t: int,
    prev: int,
    time: int,
    texts: int,
) -> (j: int)
    requires
        spacer_due_at(events, t, prev, time, texts),
    ensures
        0 <= j < events.len(),
        prev < events[j].at_ms,
        events[j].at_ms + t <= time,
        time < events[j].at_ms + t + MIN_SLEEP_MS,
        forall|j2: int| j < j2 < events.len() ==> (#[trigger] events[j2]).at_ms > time,
        texts == j + 1,
{
    reveal(spacer_due_at);
    let j = choose|j: int|
        0 <= j < events.len() && prev < events[j].at_ms && events[j].at_ms + t <= time && time
            < events[j].at_ms + t + MIN_SLEEP_MS && (forall|j2: int|
            j < j2 < events.len() ==> events[j2].at_ms > time) && texts == j + 1;
    j
}

proof fn lemma_texts_of_push_text(items: Seq<OutLine>, t: String)
    ensures
        texts_of(items.push(OutLine::Text(t))) == texts_of(items) + seq![t@],
{
    assert(items.push(OutLine::Text(t)).drop_last() =~= items);
}

proof fn lemma_texts_of_push_spacer(items: Seq<OutLine>, s: String)
    ensures
        texts_of(items.push(OutLine::Spacer(s))) == texts_of(items),
{
    assert(items.push(OutLine::Spacer(s)).drop_last() =~= items);
    assert(texts_of(items) + Seq::<Seq<char>>::empty() =~= texts_of(items));
}

proof fn lemma_event_texts_len(events: Seq<Event>)
    ensures
        event_texts(events).len() == events.len(),
    decreases events.len(),
{
    if events.len() > 0 {
        lemma_event_texts_len(events.drop_last());
    }
}

proof fn lemma_event_texts_take_step(events: Seq<Event>, i: int)
    requires
        0 <= i < events.len(),
    ensures
        event_texts(events.take(i + 1)) == event_texts(events.take(i)) + seq![events[i].text@],
{
    assert(events.take(i + 1).drop_last() =~= events.take(i));
    assert(events.take(i + 1).last() == events[i]);
}

proof fn lemma_take_push<A>(s: Seq<A>, x: A, p: int)
    requires
        0 <= p <= s.len(),
    ensures
        s.push(x).take(p) == s.take(p),
{
    assert(s.push(x).take(p) =~= s.take(p));
}

/// Whether the events arrive in order: each at or after the one before it.
pub open spec fn arrivals_sorted(events: Seq<Event>) -> bool {
    forall|x: int|
        0 <= x && x + 1 < events.len() ==> (#[trigger] events[x]).at_ms <= events[x + 1].at_ms
}

/// Milliseconds left until `end`, stopping at zero.
pub open spec fn remaining_ms(end: int, wake: int) -> nat {
    if wake >= end {
        0
    } else {
        (end - wake) as nat
    }
}

/// The slack the wake-count bound still has: a full threshold, except while
/// a line has arrived after the last spacer and its threshold has not yet
/// run out, when the pending poll has already been paid for.
pub open spec fn wake_credit(state: ClockState, wake: int, t: int) -> int {
    if state.last_spacer_ms < state.last_line_ms && wake < state.last_line_ms + t {
        0
    } else {
        t
    }
}

proof fn lemma_mul_one_more(a: int, t: int)
    ensures
        (a + 1) * t == a * t + t,
{
    assert((a + 1) * t == a * t + t) by (nonlinear_arith);
}

/// In a run sorted pairwise by arrival, any earlier event arrived at or
/// before any later one.
pub proof fn lemma_sorted_mono(events: Seq<Event>, j: int, j2: int)
    requires
        arrivals_sorted(events),
        0 <= j <= j2 < events.len(),
    ensures
        events[j].at_ms <= events[j2].at_ms,
    decreases j2 - j,
{
    if j < j2 {
        lemma_sorted_mono(events, j, j2 - 1);
    }
}

proof fn lemma_unprocessed_after(events: Seq<Event>, i: int, w: int)
    requires
        arrivals_sorted(events),
        0 <= i <= events.len(),
        i < events.len() ==> events[i].at_ms > w,
    ensures
        forall|j: int| i <= j < events.len() ==> (#[trigger] events[j]).at_ms > w,
{
    assert forall|j: int| i <= j < events.len() implies (#[trigger] events[j]).at_ms > w by {
        lemma_sorted_mono(events, i, j);
    }
}

proof fn lemma_takes_preserved(items_old: Seq<OutLine>, x: OutLine, positions: Seq<usize>)
    requires
        forall|k: int| 0 <= k < positions.len() ==> (#[trigger] positions[k]) < items_old.len(),
    ensures
        forall|k: int|
            0 <= k < positions.len() ==> items_old.push(x).take((#[trigger] positions[k]) as int)
                == items_old.take(positions[k] as int),
{
    assert forall|k: int|
        0 <= k < positions.len() implies items_old.push(x).take((#[trigger] positions[k]) as int)
        == items_old.take(positions[k] as int) by {
        lemma_take_push(items_old, x, positions[k] as int);
    }
}

/// A recorded spacer instant can equal no line's arrival instant: it lies a
/// full threshold after the latest line before it and strictly before every
/// later line.
proof fn lemma_spacer_time_is_no_arrival(
    events: Seq<Event>,
    t: int,
    times: Seq<u64>,
    positions: Seq<usize>,
    items: Seq<OutLine>,
    k: int,
    j: int,
)
    requires
        arrivals_sorted(events),
        MIN_SLEEP_MS <= t,
        0 <= k < times.len(),
        times.len() == positions.len(),
        spacer_due_at(
            events,
            t,
            prev_spacer_time(times, k),
            times[k] as int,
            texts_of(items.take(positions[k] as int)).len() as int,
        ),
        0 <= j < events.len(),
    ensures
        events[j].at_ms != times[k],
{
    if events[j].at_ms == times[k] {
        let jw = lemma_due_witness(
            events,
            t,
            prev_spacer_time(times, k),
            times[k] as int,
            texts_of(items.take(positions[k] as int)).len() as int,
        );
        if j <= jw {
            lemma_sorted_mono(events, j, jw);
            assert(false);
        } else {
            assert(events[j].at_ms > times[k]);
            assert(false);
        }
    }
}

/// When a line closes an idle gap at least a threshold and a minimum sleep
/// wide, a spacer already stands in that gap: either the clock rendered one
/// after the earlier line, or it would have rendered before this instant.
proof fn lemma_gap_already_spaced(
    events: Seq<Event>,
    t: int,
    i: int,
    wake: int,
    last_poll: int,
    last_spacer: int,
    times: Seq<u64>,
    positions: Seq<usize>,
    items: Seq<OutLine>,
)
    requires
        arrivals_sorted(events),
        forall|j: int| 0 <= j < events.len() ==> 1 <= (#[trigger] events[j]).at_ms,
        MIN_SLEEP_MS <= t,
        1 <= i < events.len(),
        events[i].at_ms <= wake,
        events[i].at_ms > last_poll,
        wake <= last_poll + t,
        last_spacer == prev_spacer_time(times, times.len() as int),
        last_spacer <= last_poll,
        last_spacer < events[i - 1].at_ms ==> wake < events[i - 1].at_ms + t + MIN_SLEEP_MS,
        times.len() == positions.len(),
        forall|k: int|
            0 <= k < times.len() ==> spacer_due_at(
                events,
                t,
                prev_spacer_time(times, k),
                (#[trigger] times[k]) as int,
                texts_of(items.take(positions[k] as int)).len() as int,
            ),
        events[i].at_ms >= events[i - 1].at_ms + t + MIN_SLEEP_MS,
    ensures
        exists|k: int|
            0 <= k < times.len() && events[i - 1].at_ms < (#[trigger] times[k]) < events[i].at_ms,
{
    let prev_at = events[i - 1].at_ms as int;
    if last_spacer > prev_at {
        assert(times.len() > 0);
        let k = times.len() - 1;
        assert(times[k] == last_spacer);
        assert(prev_at < times[k] < events[i].at_ms);
    } else if last_spacer == prev_at {
        assert(times.len() > 0);
        let k = times.len() - 1;
        lemma_spacer_time_is_no_arrival(events, t, times, positions, items, k, i - 1);
        assert(false);
    } else {
        assert(wake < prev_at + t + MIN_SLEEP_MS);
        assert(events[i].at_ms <= wake);
        assert(false);
    }
}

/// When the input ends a threshold and a minimum sleep after its last line,
/// a spacer stands after that line: either the clock rendered one, or it
/// would have rendered before the end was reached.
proof fn lemma_tail_already_spaced(
    events: Seq<Event>,
    t: int,
    wake: int,
    end_time: int,
    last_spacer: int,
    last_line: int,
    times: Seq<u64>,
    positions: Seq<usize>,
    items: Seq<OutLine>,
)
    requires
        arrivals_sorted(events),
        forall|j: int| 0 <= j < events.len() ==> 1 <= (#[trigger] events[j]).at_ms,
        MIN_SLEEP_MS <= t,
        events.len() >= 1,
        last_line == events[events.len() - 1].at_ms,
        wake >= end_time,
        end_time >= events[events.len() - 1].at_ms + t + MIN_SLEEP_MS,
        last_spacer == prev_spacer_time(times, times.len() as int),
        last_spacer < last_line ==> wake < last_line + t + MIN_SLEEP_MS,
        times.len() == positions.len(),
        forall|k: int|
            0 <= k < times.len() ==> spacer_due_at(
                events,
                t,
                prev_spacer_time(times, k),
                (#[trigger] times[k]) as int,
                texts_of(items.take(positions[k] as int)).len() as int,
            ),
    ensures
        exists|k: int|
            0 <= k < times.len() && (#[trigger] times[k]) > events[events.len() - 1].at_ms,
{
    let last_at = events[events.len() - 1].at_ms as int;
    if last_spacer > last_at {
        assert(times.len() > 0);
        let k = times.len() - 1;
        assert(times[k] > last_at);
    } else if last_spacer == last_at {
        assert(times.len() > 0);
        let k = times.len() - 1;
        lemma_spacer_time_is_no_arrival(events, t, times, positions, items, k, events.len() - 1);
        assert(false);
    } else {
        assert(wake < last_at + t + MIN_SLEEP_MS);
        assert(false);
    }
}

/// The largest instant a run may reach, in milliseconds: the arithmetic of
/// a run stays well within a machine word under it.
pub const RUN_MS_LIMIT: u64 = 0x200000000;

/// The most input lines a run accepts.
pub const RUN_EVENT_LIMIT: usize = 0x10000000;

/// Plays one whole run on a shared timeline: the lines in `events` arrive
/// at their instants, the input ends at `end_time_ms`, and the spacer clock
/// polls, sleeps and renders as [`poll_step`] decides, starting at instant
/// zero with [`ClockState::new`]. Each spacer is rendered from `stamp`,
/// from the time since the previous spacer, and from the resolved width.
///
/// A line that arrives at the very instant of a poll is relayed first and
/// the pending spacer is suppressed: the relay's timestamp update is
/// linearized before the clock's read.
#[verifier::rlimit(100)]
pub fn run_timeline(
    events: &Vec<Event>,
    end_time_ms: u64,
    cfg: &SpacerConfig,
    stamp: &Stamp,
    detected_width: Option<u16>,
) -> (out: RunOutput)
    requires
        stamp.wf(),
        MIN_SLEEP_MS <= cfg.idle_threshold_ms <= RUN_MS_LIMIT,
        end_time_ms <= RUN_MS_LIMIT,
        events@.len() <= RUN_EVENT_LIMIT,
        arrivals_sorted(events@),
        forall|j: int|
            0 <= j < events@.len() ==> 1 <= (#[trigger] events@[j]).at_ms <= end_time_ms,
    ensures
        // every input line comes through, unchanged and in order
        texts_of(out.items@) == event_texts(events@),
        // and nothing else: each item is a relayed line or a listed spacer
        out.items@.len() == events@.len() + out.spacer_times@.len(),
        out.spacer_positions@.len() == out.spacer_times@.len(),
        // each spacer's position, content and render instant are fixed
        forall|k: int|
            0 <= k < out.spacer_times@.len() ==> ((#[trigger] out.spacer_positions@[k]) as int)
                < out.items@.len(),
        forall|k: int|
            0 <= k < out.spacer_times@.len() ==> ((#[trigger] out.items@[out.spacer_positions@[k] as int])
                matches OutLine::Spacer(s) && s@ == spacer_line_chars(
                *cfg,
                *stamp,
                out.spacer_times@[k] - prev_spacer_time(out.spacer_times@, k),
                detected_width,
            )),
        forall|k1: int, k2: int|
            0 <= k1 < k2 < out.spacer_times@.len() ==> (#[trigger] out.spacer_positions@[k1])
                < (#[trigger] out.spacer_positions@[k2]) && out.spacer_times@[k1]
                < out.spacer_times@[k2],
        // a spacer renders only before the input ends, and only once a full
        // idle threshold has passed since the last line, which arrived
        // after the previous spacer; its position matches its instant
        forall|k: int|
            0 <= k < out.spacer_times@.len() ==> (#[trigger] out.spacer_times@[k]) < end_time_ms,
        forall|k: int|
            0 <= k < out.spacer_times@.len() ==> spacer_due_at(
                events@,
                cfg.idle_threshold_ms as int,
                prev_spacer_time(out.spacer_times@, k),
                (#[trigger] out.spacer_times@[k]) as int,
                texts_of(out.items@.take(out.spacer_positions@[k] as int)).len() as int,
            ),
        // an idle gap of a threshold plus the minimum sleep always holds a
        // spacer, between the two lines around it
        forall|j: int|
            0 <= j && j + 1 < events@.len() && (#[trigger] events@[j + 1]).at_ms >= events@[j].at_ms
                + cfg.idle_threshold_ms + MIN_SLEEP_MS ==> exists|k: int|
                0 <= k < out.spacer_times@.len() && events@[j].at_ms < (#[trigger] out.spacer_times@[k])
                    < events@[j + 1].at_ms,
        // so does a long enough quiet stretch before the input ends
        (events@.len() > 0 && end_time_ms >= events@[events@.len() - 1].at_ms
            + cfg.idle_threshold_ms + MIN_SLEEP_MS) ==> exists|k: int|
            0 <= k < out.spacer_times@.len() && (#[trigger] out.spacer_times@[k])
                > events@[events@.len() - 1].at_ms,
        // the clock woke only a bounded number of times
        out.stats.wakeups * cfg.idle_threshold_ms <= events@.len() * cfg.idle_threshold_ms
            + end_time_ms + 3 * cfg.idle_threshold_ms,
{
    let t: u64 = cfg.idle_threshold_ms;
    let mut state = ClockState::new(0);
    let mut items: Vec<OutLine> = Vec::new();
    let mut times: Vec<u64> = Vec::new();
    let mut positions: Vec<usize> = Vec::new();
    let mut stats = TestStats::new();
    let mut wake: u64 = 0;
    let mut i: usize = 0;
    let ghost mut last_poll: int = 0;
    loop
        invariant_except_break
            t == cfg.idle_threshold_ms,
            stamp.wf(),
            MIN_SLEEP_MS <= t <= RUN_MS_LIMIT,
            end_time_ms <= RUN_MS_LIMIT,
            events@.len() <= RUN_EVENT_LIMIT,
            arrivals_sorted(events@),
            forall|j: int|
                0 <= j < events@.len() ==> 1 <= (#[trigger] events@[j]).at_ms <= end_time_ms,
            i <= events@.len(),
            !state.finished,
            0 <= last_poll <= wake as int,
            wake as int <= last_poll + t,
            (wake as int) < end_time_ms + t,
            forall|j: int| 0 <= j < i ==> (#[trigger] events@[j]).at_ms <= wake,
            forall|j: int| i <= j < events@.len() ==> (#[trigger] events@[j]).at_ms > last_poll,
            state.last_line_ms == (if i == 0 {
                0
            } else {
                events@[i - 1].at_ms
            }),
            state.last_spacer_ms == prev_spacer_time(times@, times@.len() as int),
            state.last_spacer_ms <= last_poll,
            state.last_spacer_ms < state.last_line_ms ==> (wake as int) < state.last_line_ms + t
                + MIN_SLEEP_MS,
            texts_of(items@) == event_texts(events@.take(i as int)),
            items@.len() == i + times@.len(),
            times@.len() == positions@.len(),
            forall|k: int|
                0 <= k < times@.len() ==> ((#[trigger] positions@[k]) as int) < items@.len(),
            forall|k: int|
                0 <= k < times@.len() ==> (#[trigger] items@[positions@[k] as int] matches OutLine::Spacer(
                    s,
                ) && s@ == spacer_line_chars(
                    *cfg,
                    *stamp,
                    times@[k] - prev_spacer_time(times@, k),
                    detected_width,
                )),
            forall|k1: int, k2: int|
                0 <= k1 < k2 < times@.len() ==> (#[trigger] positions@[k1]) < (#[trigger] positions@[k2])
                    && times@[k1] < times@[k2],
            forall|k: int| 0 <= k < times@.len() ==> (#[trigger] times@[k]) < end_time_ms,
            forall|k: int| 0 <= k < times@.len() ==> (#[trigger] times@[k]) as int <= last_poll,
            forall|k: int|
                0 <= k < times@.len() ==> spacer_due_at(
                    events@,
                    t as int,
                    prev_spacer_time(times@, k),
                    (#[trigger] times@[k]) as int,
                    texts_of(items@.take(positions@[k] as int)).len() as int,
                ),
            forall|j: int|
                0 <= j && j + 1 < i && (#[trigger] events@[j + 1]).at_ms >= events@[j].at_ms + t
                    + MIN_SLEEP_MS ==> exists|k: int|
                    0 <= k < times@.len() && events@[j].at_ms < (#[trigger] times@[k]) < events@[j
                        + 1].at_ms,
            stats.wakeups * t <= i * t + wake + wake_credit(state, wake as int, t as int),
            stats.wakeups * 10 <= i * 10 + wake + t,
        ensures
            i == events@.len(),
            wake >= end_time_ms,
            texts_of(items@) == event_texts(events@.take(i as int)),
            items@.len() == i + times@.len(),
            times@.len() == positions@.len(),
            forall|k: int|
                0 <= k < times@.len() ==> ((#[trigger] positions@[k]) as int) < items@.len(),
            forall|k: int|
                0 <= k < times@.len() ==> (#[trigger] items@[positions@[k] as int] matches OutLine::Spacer(
                    s,
                ) && s@ == spacer_line_chars(
                    *cfg,
                    *stamp,
                    times@[k] - prev_spacer_time(times@, k),
                    detected_width,
                )),
            forall|k1: int, k2: int|
                0 <= k1 < k2 < times@.len() ==> (#[trigger] positions@[k1]) < (#[trigger] positions@[k2])
                    && times@[k1] < times@[k2],
            forall|k: int| 0 <= k < times@.len() ==> (#[trigger] times@[k]) < end_time_ms,
            forall|k: int|
                0 <= k < times@.len() ==> spacer_due_at(
                    events@,
                    t as int,
                    prev_spacer_time(times@, k),
                    (#[trigger] times@[k]) as int,
                    texts_of(items@.take(positions@[k] as int)).len() as int,
                ),
            forall|j: int|
                0 <= j && j + 1 < i && (#[trigger] events@[j + 1]).at_ms >= events@[j].at_ms + t
                    + MIN_SLEEP_MS ==> exists|k: int|
                    0 <= k < times@.len() && events@[j].at_ms < (#[trigger] times@[k]) < events@[j
                        + 1].at_ms,
            (events@.len() > 0 && end_time_ms >= events@[events@.len() - 1].at_ms + t
                + MIN_SLEEP_MS) ==> exists|k: int|
                0 <= k < times@.len() && (#[trigger] times@[k]) > events@[events@.len() - 1].at_ms,
            stats.wakeups * t <= events@.len() * t + end_time_ms + 3 * t,
        decreases remaining_ms(end_time_ms as int, wake as int), events@.len() - i,
    {
        if i < events.len() && events[i].at_ms <= wake {
            // Relay one line: record its arrival before it is written out.
            let at: u64 = events[i].at_ms;
            let ghost items_old = items@;
            let ghost state_old = state;
            proof {
                if i > 0 {
                    lemma_sorted_mono(events@, i - 1 as int, i as int);
                }
            }
            state.set_line_time(at);
            let line = events[i].text.clone();
            items.push(OutLine::Text(line));
            proof {
                lemma_texts_of_push_text(items_old, line);
                lemma_event_texts_take_step(events@, i as int);
                lemma_takes_preserved(items_old, OutLine::Text(line), positions@);
                // A gap long enough for a spacer, ending at this line,
                // already holds one.
                if i > 0 && at >= events@[i - 1].at_ms + t + MIN_SLEEP_MS {
                    lemma_gap_already_spaced(
                        events@,
                        t as int,
                        i as int,
                        wake as int,
                        last_poll,
                        state_old.last_spacer_ms as int,
                        times@,
                        positions@,
                        items_old,
                    );
                }
                // the wake-count budget: a relayed line pays for the poll
                // that its threshold will demand
                lemma_mul_one_more(i as int, t as int);
                assert(state.last_spacer_ms < state.last_line_ms);
                assert((wake as int) < state.last_line_ms + t);
                assert(wake_credit(state, wake as int, t as int) == 0);
            }
            i = i + 1;
        } else {
            // No line is pending at this instant: let the clock act.
            if i == events.len() && wake >= end_time_ms {
                state.mark_finished();
            }
            let ghost wakeups_old = stats.wakeups;
            proof {
                assert(stats.wakeups * 10 <= RUN_EVENT_LIMIT * 10 + end_time_ms + 2 * t);
                assert(stats.wakeups < 0x100000000int);
            }
            stats.wakeups = stats.wakeups + 1;
            let ghost state_now = state;
            proof {
                lemma_mul_one_more(wakeups_old as int, t as int);
                // while the loop goes on, the end has not been reached
                if wake >= end_time_ms {
                    assert(i == events@.len());
                }
            }
            match poll_step(&state, wake, t) {
                ClockAction::Exit => {
                    proof {
                        assert(i == events@.len());
                        assert(wake >= end_time_ms);
                        // a long enough quiet stretch before the end got
                        // its spacer
                        if events@.len() > 0 && end_time_ms >= events@[events@.len() - 1].at_ms + t
                            + MIN_SLEEP_MS {
                            lemma_tail_already_spaced(
                                events@,
                                t as int,
                                wake as int,
                                end_time_ms as int,
                                state.last_spacer_ms as int,
                                state.last_line_ms as int,
                                times@,
                                positions@,
                                items@,
                            );
                        }
                        // the final wake-count bound
                        assert(wakeups_old * t <= i * t + wake + t);
                        assert(stats.wakeups * t <= events@.len() * t + end_time_ms + 3 * t);
                    }
                    break;
                },
                ClockAction::Render => {
                    let elapsed: u64 = wake - state.read_spacer_time();
                    let line = render_spacer(cfg, stamp, elapsed, detected_width);
                    let ghost items_old = items@;
                    let ghost times_old = times@;
                    proof {
                        // a render presupposes a line after the last spacer
                        assert(state.last_spacer_ms < state.last_line_ms);
                        assert(i >= 1);
                        lemma_event_texts_len(events@.take(i as int));
                        lemma_unprocessed_after(events@, i as int, wake as int);
                        assert(wake < end_time_ms);
                    }
                    let ghost positions_old = positions@;
                    positions.push(items.len());
                    times.push(wake);
                    items.push(OutLine::Spacer(line));
                    state.set_spacer_time(wake);
                    proof {
                        lemma_texts_of_push_spacer(items_old, line);
                        lemma_takes_preserved(items_old, OutLine::Spacer(line), positions_old);
                        assert(items@.take(items_old.len() as int) =~= items_old);
                        // the new spacer was due: the latest line is the witness
                        reveal(spacer_due_at);
                        let k_new = times_old.len() as int;
                        assert(texts_of(items_old).len() == i as int);
                        assert(prev_spacer_time(times@, k_new) == state_now.last_spacer_ms);
                        assert(0 <= i - 1 < events@.len() && prev_spacer_time(times@, k_new)
                            < events@[i - 1].at_ms && events@[i - 1].at_ms + t <= wake as int && (
                        wake as int) < events@[i - 1].at_ms + t + MIN_SLEEP_MS && (forall|j2: int|
                            i - 1 < j2 < events@.len() ==> events@[j2].at_ms > wake) && i as int == (
                        i - 1) + 1);
                        assert(spacer_due_at(
                            events@,
                            t as int,
                            prev_spacer_time(times@, k_new),
                            wake as int,
                            texts_of(items@.take(positions@[k_new] as int)).len() as int,
                        ));
                        // the wake-count budget keeps its slack
                        assert(wake_credit(state, wake as int + t, t as int) == t);
                        last_poll = wake as int;
                    }
                    wake = wake + t;
                },
                ClockAction::Sleep(d) => {
                    proof {
                        assert(MIN_SLEEP_MS <= d <= t);
                        lemma_unprocessed_after(events@, i as int, wake as int);
                        // after the sleep the threshold has run out, so the
                        // wake-count budget regains its slack
                        if state.last_spacer_ms < state.last_line_ms {
                            assert((wake as int) + d >= state.last_line_ms + t);
                        }
                        assert(wake_credit(state, wake as int + d, t as int) == t);
                        last_poll = wake as int;
                    }
                    wake = wake + d;
                },
            }
        }
    }
    proof {
        assert(events@.take(events@.len() as int) =~= events@);
    }
    RunOutput { items, spacer_times: times, spacer_positions: positions, stats }
}

} // verus!
