//! What holds of every run, proved once and for all.
//!
//! [`crate::engine::run_timeline`] already fixes each spacer's instant,
//! content and position. The lemmas here draw the consequences a reader of
//! the contract would want stated: a run whose lines never leave a full
//! idle threshold of silence emits no spacer at all; one idle gap never
//! holds two spacers; and consecutive spacers lie more than a threshold
//! apart, with a line between them.

use vstd::prelude::*;

use crate::engine::{
    arrivals_sorted, lemma_due_witness, lemma_sorted_mono, prev_spacer_time, spacer_due_at,
    texts_of, Event, OutLine,
};

verus! {

/// When no idle stretch ever reaches the threshold `t` — every later line
/// follows the one before it within `t`, and the input ends within `t` of
/// its last line — a run emits no spacer.
///
/// The hypotheses are the facts [`crate::engine::run_timeline`] states about
/// its spacer instants; the lemma speaks of any output that satisfies them.
pub proof fn lemma_quiet_run_has_no_spacers(
    events: Seq<Event>,
    t: int,
    end_time: int,
    times: Seq<u64>,
    positions: Seq<usize>,
    items: Seq<OutLine>,
)
    requires
        arrivals_sorted(events),
        times.len() == positions.len(),
        forall|k: int| 0 <= k < times.len() ==> (#[trigger] times[k]) < end_time,
        forall|k: int|
            0 <= k < times.len() ==> spacer_due_at(
                events,
                t,
                prev_spacer_time(times, k),
                (#[trigger] times[k]) as int,
                texts_of(items.take(positions[k] as int)).len() as int,
            ),
        forall|j: int|
            0 <= j && j + 1 < events.len() ==> (#[trigger] events[j + 1]).at_ms < events[j].at_ms
                + t,
        events.len() > 0 ==> end_time < events[events.len() - 1].at_ms + t,
    ensures
        times.len() == 0,
{
    if times.len() > 0 {
        let k = 0int;
        let j = lemma_due_witness(
            events,
            t,
            prev_spacer_time(times, k),
            times[k] as int,
            texts_of(items.take(positions[k] as int)).len() as int,
        );
        if j + 1 < events.len() {
            assert(events[j + 1].at_ms < events[j].at_ms + t);
            assert(events[j + 1].at_ms > times[k]);
            assert(false);
        } else {
            assert(end_time < events[j].at_ms + t);
            assert(times[k] < end_time);
            assert(false);
        }
    }
}

/// One idle gap never holds two spacers: two recorded spacer instants that
/// both lie strictly between one line and the next are the same one.
pub proof fn lemma_gap_holds_at_most_one_spacer(
    events: Seq<Event>,
    t: int,
    times: Seq<u64>,
    positions: Seq<usize>,
    items: Seq<OutLine>,
    j: int,
    k1: int,
    k2: int,
)
    requires
        arrivals_sorted(events),
        t >= 1,
        times.len() == positions.len(),
        forall|ka: int, kb: int|
            0 <= ka < kb < times.len() ==> (#[trigger] times[ka]) < (#[trigger] times[kb]),
        forall|k: int|
            0 <= k < times.len() ==> spacer_due_at(
                events,
                t,
                prev_spacer_time(times, k),
                (#[trigger] times[k]) as int,
                texts_of(items.take(positions[k] as int)).len() as int,
            ),
        0 <= j && j + 1 < events.len(),
        0 <= k1 <= k2 < times.len(),
        events[j].at_ms < times[k1] && times[k1] < events[j + 1].at_ms,
        events[j].at_ms < times[k2] && times[k2] < events[j + 1].at_ms,
    ensures
        k1 == k2,
{
    if k1 < k2 {
        let jw = lemma_due_witness(
            events,
            t,
            prev_spacer_time(times, k2),
            times[k2] as int,
            texts_of(items.take(positions[k2] as int)).len() as int,
        );
        // the line that made the second spacer due would have to lie
        // strictly between two consecutive lines
        assert(times[k2 - 1] >= times[k1]);
        assert(events[jw].at_ms > times[k1]);
        assert(events[jw].at_ms > events[j].at_ms);
        assert(events[jw].at_ms < events[j + 1].at_ms);
        if jw <= j {
            lemma_sorted_mono(events, jw, j);
            assert(false);
        } else {
            lemma_sorted_mono(events, j + 1, jw);
            assert(false);
        }
    }
}

/// After a spacer renders, no further spacer renders until a full idle
/// threshold has passed again after some newly arrived line: consecutive
/// spacer instants are more than a threshold apart, and a line lies between
/// them.
pub proof fn lemma_spacers_separated(
    events: Seq<Event>,
    t: int,
    times: Seq<u64>,
    positions: Seq<usize>,
    items: Seq<OutLine>,
    k: int,
)
    requires
        times.len() == positions.len(),
        forall|kk: int|
            0 <= kk < times.len() ==> spacer_due_at(
                events,
                t,
                prev_spacer_time(times, kk),
                (#[trigger] times[kk]) as int,
                texts_of(items.take(positions[kk] as int)).len() as int,
            ),
        1 <= k < times.len(),
    ensures
        times[k] as int > times[k - 1] as int + t,
        exists|j: int|
            0 <= j < events.len() && times[k - 1] < (#[trigger] events[j]).at_ms
                && events[j].at_ms + t <= times[k],
{
    let jw = lemma_due_witness(
        events,
        t,
        prev_spacer_time(times, k),
        times[k] as int,
        texts_of(items.take(positions[k] as int)).len() as int,
    );
    assert(times[k - 1] < events[jw].at_ms && events[jw].at_ms + t <= times[k]);
}

} // verus!
