//! The window of time that an analysis covers.

use vstd::prelude::*;
use vstd::string::*;

use crate::divergence::analysis::{snap, STEP};
use crate::text::push_decimal;

verus! {

/// A week, in seconds.
pub const WEEK: u64 = 604_800;

/// The times from `from` up to `to`.
#[derive(Clone, Copy, Debug, PartialEq, Eq, Structural)]
pub struct Window {
    pub from: u64,
    /// Exclusive.
    pub to: u64,
}

/// The time that was asked for, or else a default.
pub open spec fn asked_or(asked: Option<u64>, default: int) -> nat {
    match asked {
        Some(ts) => ts as nat,
        None => default as nat,
    }
}

/// The window from the minute that holds `from` up to the minute that holds
/// `to`.
pub open spec fn on_the_grid(from: nat, to: nat) -> Window {
    Window {
        from: crate::grid::slot_start(from, STEP as nat) as u64,
        to: crate::grid::slot_start(to, STEP as nat) as u64,
    }
}

/// The window for prices of which the first is at `first` and the last at
/// `last`: what was asked for, or else all of them.
pub fn input_window(from: Option<u64>, to: Option<u64>, first: u64, last: u64) -> (r: Window)
    requires
        last <= u64::MAX - STEP,
    ensures
        r == on_the_grid(asked_or(from, first as int), asked_or(to, last + STEP)),
        from matches Some(ts) ==> r.from <= ts < r.from + 60,
        from is None ==> r.from <= first < r.from + 60,
        to matches Some(ts) ==> r.to <= ts < r.to + 60,
        to is None ==> last < r.to <= last + 60,
{
    proof {
        crate::grid::slot_start_is_on_the_grid(asked_or(from, first as int), STEP as nat);
        crate::grid::slot_start_is_on_the_grid(asked_or(to, last + STEP), STEP as nat);
    }
    let from = match from {
        Some(ts) => ts,
        None => first,
    };
    let to = match to {
        Some(ts) => ts,
        None => last + STEP,
    };
    Window { from: snap(from), to: snap(to) }
}

/// The window for prices that are to be fetched: what was asked for, or else
/// the week up to now.
pub fn fetch_window(from: Option<u64>, to: Option<u64>, now: u64) -> (r: Window)
    ensures
        r == on_the_grid(
            asked_or(
                from,
                if now >= WEEK {
                    now - WEEK
                } else {
                    0
                },
            ),
            asked_or(to, now as int),
        ),
        from matches Some(ts) ==> r.from <= ts < r.from + 60,
        from is None && now >= 604_800 ==> r.from <= now - 604_800 < r.from + 60,
        from is None && now < 604_800 ==> r.from == 0,
        to matches Some(ts) ==> r.to <= ts < r.to + 60,
        to is None ==> r.to <= now < r.to + 60,
{
    proof {
        let start = if now >= WEEK {
            now - WEEK
        } else {
            0
        };
        crate::grid::slot_start_is_on_the_grid(asked_or(from, start), STEP as nat);
        crate::grid::slot_start_is_on_the_grid(asked_or(to, now as int), STEP as nat);
    }
    let from = match from {
        Some(ts) => ts,
        None => now.saturating_sub(WEEK),
    };
    let to = match to {
        Some(ts) => ts,
        None => now,
    };
    Window { from: snap(from), to: snap(to) }
}

/// What is said of a window that holds no time.
pub open spec fn empty_words(w: Window) -> Seq<char> {
    "empty window: to ("@ + crate::text::decimal(w.to as nat) + ") <= from ("@
        + crate::text::decimal(w.from as nat) + ")"@
}

impl Window {
    /// Says that the window holds no time, where that is so.
    pub fn refusal(&self) -> (r: Option<String>)
        ensures
            r is Some <==> self.to <= self.from,
            r matches Some(s) ==> s@ == empty_words(*self),
    {
        if self.to > self.from {
            return None;
        }
        let mut out = "empty window: to (".to_owned();
        push_decimal(&mut out, self.to);
        out.append(") <= from (");
        push_decimal(&mut out, self.from);
        out.append(")");
        Some(out)
    }
}

/// A window on the grid holds as many slots as it spans steps, and each of them
/// starts on the grid and ends in the window.
pub proof fn slots_fill_the_window(from: nat, to: nat, i: nat)
    requires
        from <= to,
        to <= u64::MAX,
    ensures
        ({
            let w = on_the_grid(from, to);
            let n = crate::divergence::analysis::window_slots(w.from, w.to);
            &&& w.from <= w.to
            &&& n == (w.to - w.from) / STEP as int
            &&& i < n ==> {
                let ts = crate::grid::slot_time(w.from as nat, i, STEP as nat);
                ts % STEP as nat == 0 && w.from <= ts && ts + STEP <= w.to
            }
        }),
{
    crate::grid::slot_start_is_on_the_grid(from, STEP as nat);
    crate::grid::slot_start_is_on_the_grid(to, STEP as nat);
}

/// The window of an analysis of prices that start and end on the grid holds
/// every one of them, unless something else was asked for.
pub proof fn input_window_holds_all(first: u64, last: u64, ts: u64)
    requires
        last <= u64::MAX - STEP,
        first % STEP == 0,
        last % STEP == 0,
        first <= ts <= last,
    ensures
        ({
            let w = on_the_grid(asked_or(None, first as int), asked_or(None, last + STEP));
            w.from <= ts < w.to && w.from < w.to
        }),
{
    crate::grid::slot_start_is_on_the_grid(first as nat, STEP as nat);
    crate::grid::slot_start_is_on_the_grid((last + STEP) as nat, STEP as nat);
}


/// Both ends of a window are the starts of the minutes that hold the times that
/// were asked for. Without such times, an analysis covers the prices that there
/// are, and a fetch the seven days up to now.
pub proof fn windows_are_what_was_asked_for(from: nat, to: nat, asked: u64, default: int)
    requires
        from <= u64::MAX,
        to <= u64::MAX,
    ensures
        ({
            let w = on_the_grid(from, to);
            &&& w.from as int % 60 == 0 && w.from <= from < w.from + 60
            &&& w.to as int % 60 == 0 && w.to <= to < w.to + 60
        }),
        asked_or(Some(asked), default) == asked,
        default >= 0 ==> asked_or(None, default) == default,
        WEEK == 7 * 24 * 60 * 60,
{
    crate::grid::slot_start_is_on_the_grid(from, STEP as nat);
    crate::grid::slot_start_is_on_the_grid(to, STEP as nat);
}

} // verus!
