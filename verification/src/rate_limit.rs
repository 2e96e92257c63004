//! The per-sender rate limit: a fixed window with a request counter.

use vstd::prelude::*;

verus! {

/// How many requests a sender may make in one window.
pub const RATE_LIMIT: u64 = 100;

/// The length of a window, in seconds.
pub const WINDOW: u64 = 60;

/// The counter of one sender: how many requests were admitted since the
/// window began, and when it began (seconds since the Unix epoch).
#[derive(Debug, Clone, Copy, PartialEq, Eq, Structural)]
pub struct RateWindow {
    /// How many requests the window has admitted.
    pub count: u64,
    /// When the window began.
    pub window_start: u64,
}

/// The window that a request at `now` is held against: the sender's own, or
/// an empty one that begins now for a sender not seen before.
pub open spec fn current_window(slot: Option<RateWindow>, now: u64) -> RateWindow {
    match slot {
        Some(window) => window,
        None => RateWindow { count: 0, window_start: now },
    }
}

/// Whether the window has run its full length at `now`. A clock reading
/// before the start of the window counts as no time elapsed.
pub open spec fn window_elapsed(window: RateWindow, now: u64) -> bool {
    now - window.window_start >= WINDOW
}

/// Whether a request at `now` is admitted.
pub open spec fn admits(slot: Option<RateWindow>, now: u64) -> bool {
    let window = current_window(slot, now);
    window_elapsed(window, now) || window.count < RATE_LIMIT
}

/// The sender's counter after a request at `now`: a new window with this
/// one request where the old one has elapsed; unchanged where the request is
/// refused; one request more otherwise.
pub open spec fn after_charge(slot: Option<RateWindow>, now: u64) -> RateWindow {
    let window = current_window(slot, now);
    if window_elapsed(window, now) {
        RateWindow { count: 1, window_start: now }
    } else if window.count >= RATE_LIMIT {
        window
    } else {
        RateWindow { count: (window.count + 1) as u64, window_start: window.window_start }
    }
}

/// Charges one request at `now` to a sender's counter. Returns the counter
/// as it stands afterwards and whether the request is admitted.
pub fn charge(slot: Option<RateWindow>, now: u64) -> (outcome: (RateWindow, bool))
    ensures
        outcome.0 == after_charge(slot, now),
        outcome.1 == admits(slot, now),
{
    let window = match slot {
        Some(window) => window,
        None => RateWindow { count: 0, window_start: now },
    };
    if now >= window.window_start && now - window.window_start >= WINDOW {
        (RateWindow { count: 1, window_start: now }, true)
    } else if window.count >= RATE_LIMIT {
        (window, false)
    } else {
        (RateWindow { count: window.count + 1, window_start: window.window_start }, true)
    }
}

/// How many of the requests made at `times`, in this order, are admitted,
/// starting from the counter `slot`.
pub open spec fn admitted(slot: Option<RateWindow>, times: Seq<u64>) -> nat
    decreases times.len(),
{
    if times.len() == 0 {
        0
    } else {
        let first: nat = if admits(slot, times[0]) {
            1
        } else {
            0
        };
        first + admitted(Some(after_charge(slot, times[0])), times.skip(1))
    }
}

/// How many more requests a window can admit before it elapses.
pub open spec fn room(window: RateWindow) -> nat {
    if window.count >= RATE_LIMIT {
        0
    } else {
        (RATE_LIMIT - window.count) as nat
    }
}

/// While a window has not elapsed, it admits requests until its room is
/// used up and none after that.
pub proof fn lemma_admitted_within_window(window: RateWindow, times: Seq<u64>)
    requires
        forall|i: int| 0 <= i < times.len() ==> times[i] - window.window_start < WINDOW,
    ensures
        admitted(Some(window), times) == if times.len() <= room(window) {
            times.len()
        } else {
            room(window)
        },
    decreases times.len(),
{
    if times.len() > 0 {
        let rest = times.skip(1);
        assert forall|i: int| 0 <= i < rest.len() implies rest[i] - window.window_start
            < WINDOW by {
            assert(rest[i] == times[i + 1]);
        }
        lemma_admitted_within_window(after_charge(Some(window), times[0]), rest);
    }
}

/// In the window that a request opens, at most `RATE_LIMIT` requests are
/// admitted: of the requests that come within `WINDOW` seconds of a first
/// request that found no window or an elapsed one, the first `RATE_LIMIT`
/// are admitted and no others.
pub proof fn lemma_window_admits_at_most_limit(slot: Option<RateWindow>, times: Seq<u64>)
    requires
        times.len() > 0,
        slot matches Some(window) ==> window_elapsed(window, times[0]),
        forall|i: int| 0 <= i < times.len() ==> (#[trigger] times[i]) - times[0] < WINDOW,
    ensures
        admitted(slot, times) <= RATE_LIMIT,
        admitted(slot, times) == if times.len() <= RATE_LIMIT {
            times.len()
        } else {
            RATE_LIMIT as nat
        },
{
    let opened = after_charge(slot, times[0]);
    let rest = times.skip(1);
    assert(opened == RateWindow { count: 1, window_start: times[0] });
    assert forall|i: int| 0 <= i < rest.len() implies rest[i] - opened.window_start < WINDOW by {
        assert(rest[i] == times[i + 1]);
    }
    lemma_admitted_within_window(opened, rest);
}

/// Requests that lie less than `WINDOW` seconds apart see at most one new
/// window begin, so at most the room of the current window and one full
/// window more are admitted.
pub proof fn lemma_admitted_across_reset(window: RateWindow, times: Seq<u64>)
    requires
        forall|i: int, j: int|
            #![trigger times[i], times[j]]
            0 <= i < times.len() && 0 <= j < times.len() ==> times[i] - times[j] < WINDOW,
    ensures
        admitted(Some(window), times) <= room(window) + RATE_LIMIT,
    decreases times.len(),
{
    if times.len() > 0 {
        let rest = times.skip(1);
        let next = after_charge(Some(window), times[0]);
        assert forall|i: int, j: int|
            #![trigger rest[i], rest[j]]
            0 <= i < rest.len() && 0 <= j < rest.len() implies rest[i] - rest[j] < WINDOW by {
            assert(rest[i] == times[i + 1]);
            assert(rest[j] == times[j + 1]);
        }
        if window_elapsed(window, times[0]) {
            assert forall|i: int| 0 <= i < rest.len() implies rest[i] - next.window_start
                < WINDOW by {
                assert(rest[i] == times[i + 1]);
            }
            lemma_admitted_within_window(next, rest);
        } else {
            lemma_admitted_across_reset(next, rest);
        }
    }
}

/// Whatever the counter held before, of requests that all lie within one
/// span of less than `WINDOW` seconds at most `2 * RATE_LIMIT` are admitted:
/// a fixed window can end, and the next begin, inside the span.
pub proof fn lemma_span_admits_at_most_twice_limit(slot: Option<RateWindow>, times: Seq<u64>)
    requires
        forall|i: int, j: int|
            #![trigger times[i], times[j]]
            0 <= i < times.len() && 0 <= j < times.len() ==> times[i] - times[j] < WINDOW,
    ensures
        admitted(slot, times) <= 2 * RATE_LIMIT,
{
    match slot {
        Some(window) => {
            lemma_admitted_across_reset(window, times);
        },
        None => {
            if times.len() > 0 {
                lemma_window_admits_at_most_limit(slot, times);
            }
        },
    }
}

} // verus!
