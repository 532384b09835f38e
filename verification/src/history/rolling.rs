//! The volume-weighted price of a day, slot by slot.
//!
//! The walk over the slots of a window tells for each slot which candle of an
//! exchange enters the day that ends with the slot, and which one leaves it.

use std::collections::VecDeque;

use vstd::prelude::*;

use crate::grid::Grid;
use crate::ndjson::{vwap_results_line, VwapSample};
use crate::number::Num;
use crate::venue::{with_history, Venue};

verus! {

/// The grid step: a quarter of an hour, in seconds.
pub const STEP: u64 = 900;

/// How many slots make up a day.
pub const VWAP_WINDOW: usize = 96;

/// Finds the start of the slot that holds `ts`.
pub fn snap(ts: u64) -> (r: u64)
    ensures
        r == crate::grid::slot_start(ts as nat, STEP as nat),
{
    crate::grid::snap_to(ts, STEP)
}

/// A candle with its volume.
#[derive(Clone, Copy, Debug, PartialEq, Eq, Structural)]
pub struct Candle {
    pub close: Num,
    /// What was traded, in the quote currency.
    pub quote_volume: Num,
}

/// What a column holds at a time.
pub open spec fn held(column: Map<u64, Candle>, ts: int) -> Option<Candle> {
    if column.contains_key(ts as u64) {
        Some(column[ts as u64])
    } else {
        None
    }
}

/// The last slots of a window, no more than make up a day.
pub struct Ring {
    slots: VecDeque<Option<Candle>>,
}

impl View for Ring {
    type V = Seq<Option<Candle>>;

    closed spec fn view(&self) -> Seq<Option<Candle>> {
        self.slots@
    }
}

/// The last of some slots, no more than make up a day.
pub open spec fn trailing(slots: Seq<Option<Candle>>) -> Seq<Option<Candle>> {
    if slots.len() <= VWAP_WINDOW {
        slots
    } else {
        slots.skip(slots.len() - VWAP_WINDOW)
    }
}

impl Ring {
    /// No slot yet.
    pub fn new() -> (r: Ring)
        ensures
            r@ == Seq::<Option<Candle>>::empty(),
    {
        Ring { slots: VecDeque::new() }
    }

    /// Adds a slot, with its candle if it has one. Gives the candle of the slot
    /// that leaves, if a slot does and if it has one.
    pub fn slide(&mut self, entering: Option<Candle>) -> (leaving: Option<Candle>)
        requires
            old(self)@.len() <= VWAP_WINDOW,
        ensures
            final(self)@.len() <= VWAP_WINDOW,
            old(self)@.len() < VWAP_WINDOW ==> leaving is None && final(self)@ == old(self)@.push(
                entering,
            ),
            old(self)@.len() == VWAP_WINDOW ==> leaving == old(self)@[0] && final(self)@
                == old(self)@.skip(1).push(entering),
    {
        let mut leaving: Option<Candle> = None;
        if self.slots.len() == VWAP_WINDOW {
            match self.slots.pop_front() {
                Some(front) => {
                    leaving = front;
                },
                None => {},
            }
            assert(self.slots@ =~= old(self)@.skip(1));
        }
        self.slots.push_back(entering);
        leaving
    }
}

/// Whatever slots are added one after the other, a ring holds the last of them,
/// no more than make up a day.
pub proof fn rings_hold_the_last_day(slots: Seq<Option<Candle>>, entering: Option<Candle>)
    ensures
        trailing(slots).len() < VWAP_WINDOW ==> trailing(slots.push(entering)) == trailing(
            slots,
        ).push(entering),
        trailing(slots).len() == VWAP_WINDOW ==> trailing(slots.push(entering)) == trailing(
            slots,
        ).skip(1).push(entering) && trailing(slots)[0] == slots[slots.len() - VWAP_WINDOW],
{
    let more = slots.push(entering);
    if slots.len() < VWAP_WINDOW {
        assert(trailing(more) =~= trailing(slots).push(entering));
    } else {
        assert(trailing(more) =~= trailing(slots).skip(1).push(entering));
    }
}

/// What some slots add up to, when each candle has a weight.
pub open spec fn total(slots: Seq<Option<Candle>>, weight: spec_fn(Candle) -> int) -> int
    decreases slots.len(),
{
    if slots.len() == 0 {
        0
    } else {
        total(slots.drop_last(), weight) + match slots.last() {
            Some(candle) => weight(candle),
            None => 0,
        }
    }
}

/// What has entered less what has left is what the last day adds up to.
pub proof fn sums_cover_the_last_day(
    slots: Seq<Option<Candle>>,
    weight: spec_fn(Candle) -> int,
)
    ensures
        ({
            let left = slots.take(slots.len() - trailing(slots).len());
            total(slots, weight) - total(left, weight) == total(trailing(slots), weight)
        }),
{
    let n = slots.len() - trailing(slots).len();
    assert(trailing(slots) =~= slots.skip(n));
    lemma_total_splits(slots, n, weight);
}

proof fn lemma_total_splits(slots: Seq<Option<Candle>>, n: int, weight: spec_fn(Candle) -> int)
    requires
        0 <= n <= slots.len(),
    ensures
        total(slots, weight) == total(slots.take(n), weight) + total(slots.skip(n), weight),
    decreases slots.len(),
{
    if n == slots.len() {
        assert(slots.take(n) =~= slots);
        assert(slots.skip(n) =~= Seq::empty());
    } else {
        let rest = slots.drop_last();
        lemma_total_splits(rest, n, weight);
        assert(rest.take(n) =~= slots.take(n));
        assert(slots.skip(n).drop_last() =~= rest.skip(n));
        assert(slots.skip(n).last() == slots.last());
    }
}

/// What happens at a slot.
pub struct Moves {
    pub ts: u64,
    /// For each exchange the candle that enters the day.
    pub entering: Vec<Option<Candle>>,
    /// For each exchange the candle that leaves the day.
    pub leaving: Vec<Option<Candle>>,
}

/// A walk over the slots of a window.
pub struct Walk {
    pub from: u64,
    pub to: u64,
    /// The next slot.
    pub ts: u64,
    pub rings: Vec<Ring>,
}

/// What a column holds in the first `n` slots from `from` on.
pub open spec fn slots_of(column: Map<u64, Candle>, from: u64, n: nat) -> Seq<Option<Candle>> {
    Seq::new(n, |i: int| held(column, from + i * STEP))
}

impl Walk {
    /// How many slots lie behind.
    pub open spec fn walked(self) -> nat {
        ((self.ts - self.from) / STEP as int) as nat
    }

    /// Whether the walk is one over these columns, and its rings hold the day
    /// before the next slot.
    pub open spec fn valid(self, columns: Seq<Map<u64, Candle>>) -> bool {
        &&& self.from <= self.ts
        &&& self.to <= u64::MAX - STEP
        &&& (self.ts - self.from) % STEP as int == 0
        &&& self.rings@.len() == columns.len()
        &&& forall|v: int|
            0 <= v < columns.len() ==> (#[trigger] self.rings@[v])@ == trailing(
                slots_of(columns[v], self.from, self.walked()),
            )
    }

    /// A walk over the slots from `from` up to `to` that has not begun.
    pub fn new(grid: &Grid<Candle>, from: u64, to: u64) -> (r: Walk)
        requires
            to <= u64::MAX - STEP,
        ensures
            r.valid(grid@),
            r.from == from,
            r.to == to,
            r.ts == from,
    {
        let mut rings: Vec<Ring> = Vec::new();
        let mut v: usize = 0;
        while v < grid.columns.len()
            invariant
                v <= grid@.len(),
                grid@.len() == grid.columns@.len(),
                rings@.len() == v,
                forall|k: int| 0 <= k < v ==> (#[trigger] rings@[k])@.len() == 0,
            decreases grid.columns.len() - v,
        {
            rings.push(Ring::new());
            v = v + 1;
        }
        let r = Walk { from, to, ts: from, rings };
        assert forall|v: int| 0 <= v < grid@.len() implies (#[trigger] r.rings@[v])@ == trailing(
            slots_of(grid@[v], from, r.walked()),
        ) by {
            assert(r.rings@[v]@ =~= slots_of(grid@[v], from, 0));
        }
        r
    }

    /// Goes one slot further, unless the window ends there.
    pub fn step(&mut self, grid: &Grid<Candle>) -> (r: Option<Moves>)
        requires
            old(self).valid(grid@),
        ensures
            final(self).valid(grid@),
            final(self).from == old(self).from,
            final(self).to == old(self).to,
            r is None <==> old(self).ts >= old(self).to,
            r is None ==> final(self).ts == old(self).ts,
            r matches Some(m) ==> {
                &&& final(self).ts == old(self).ts + STEP
                &&& m.ts == old(self).ts
                &&& m.entering@.len() == grid@.len()
                &&& m.leaving@.len() == grid@.len()
                &&& forall|v: int|
                    0 <= v < grid@.len() ==> #[trigger] m.entering@[v] == held(
                        grid@[v],
                        old(self).ts as int,
                    )
                &&& forall|v: int|
                    0 <= v < grid@.len() ==> #[trigger] m.leaving@[v] == if old(self).walked()
                        < VWAP_WINDOW {
                        None
                    } else {
                        held(grid@[v], old(self).ts - VWAP_WINDOW * STEP)
                    }
            },
    {
        if self.ts >= self.to {
            return None;
        }
        let ts = self.ts;
        let ghost n = self.walked();
        let ghost before = *self;
        assert(ts == self.from + n * STEP);
        let mut rings: Vec<Ring> = Vec::new();
        let mut entering: Vec<Option<Candle>> = Vec::new();
        let mut leaving: Vec<Option<Candle>> = Vec::new();
        std::mem::swap(&mut rings, &mut self.rings);
        let mut v: usize = 0;
        while v < grid.columns.len()
            invariant
                v <= grid@.len(),
                grid@.len() == grid.columns@.len(),
                before.valid(grid@),
                n == before.walked(),
                ts == before.ts,
                ts == before.from + n * STEP,
                rings@.len() == grid@.len(),
                entering@.len() == v,
                leaving@.len() == v,
                forall|k: int|
                    0 <= k < v ==> (#[trigger] rings@[k])@ == trailing(
                        slots_of(grid@[k], before.from, n + 1),
                    ),
                forall|k: int|
                    v <= k < grid@.len() ==> (#[trigger] rings@[k])@ == trailing(
                        slots_of(grid@[k], before.from, n),
                    ),
                forall|k: int| 0 <= k < v ==> #[trigger] entering@[k] == held(grid@[k], ts as int),
                forall|k: int|
                    0 <= k < v ==> #[trigger] leaving@[k] == if n < VWAP_WINDOW {
                        None
                    } else {
                        held(grid@[k], ts - VWAP_WINDOW * STEP)
                    },
            decreases grid.columns.len() - v,
        {
            let candle = grid.cell(v, ts);
            let ghost slots = slots_of(grid@[v as int], before.from, n);
            let ghost more = slots_of(grid@[v as int], before.from, n + 1);
            proof {
                assert(more =~= slots.push(candle));
                rings_hold_the_last_day(slots, candle);
                assert(rings@[v as int]@ == trailing(slots));
                if n >= VWAP_WINDOW {
                    assert(slots[n - VWAP_WINDOW] == held(
                        grid@[v as int],
                        ts - VWAP_WINDOW * STEP,
                    ));
                }
            }
            let out = rings[v].slide(candle);
            entering.push(candle);
            leaving.push(out);
            v = v + 1;
        }
        self.rings = rings;
        self.ts = ts + STEP;
        assert(self.walked() == n + 1);
        Some(Moves { ts, entering, leaving })
    }
}

// ---------------------------------------------------------------------------
// The row of a slot
// ---------------------------------------------------------------------------

/// The exchanges in whose day something was traded, each with what a log shows
/// of its volume-weighted price.
pub open spec fn traded(
    venues: Seq<Venue>,
    volumes: Seq<Num>,
    samples: Seq<VwapSample>,
) -> Seq<(Venue, VwapSample)>
    decreases samples.len(),
{
    if samples.len() == 0 {
        Seq::empty()
    } else {
        let n = samples.len() - 1;
        let before = traded(venues, volumes, samples.drop_last());
        if crate::number::zero().below(volumes[n]) {
            before.push((venues[n], samples[n]))
        } else {
            before
        }
    }
}

/// Writes the volume-weighted prices at a slot as a line. `volumes` holds for
/// each exchange what was traded in the day, and `samples` what the line is to
/// show of it. Without anything traded there is no line.
pub fn vwap_row(ts: u64, volumes: &Vec<Num>, samples: Vec<VwapSample>) -> (r: Option<String>)
    requires
        volumes@.len() == crate::venue::history_venues().len(),
        samples@.len() == crate::venue::history_venues().len(),
    ensures
        ({
            let shown = traded(crate::venue::history_venues(), volumes@, samples@);
            &&& r is Some <==> shown.len() > 0
            &&& r matches Some(s) ==> s@ == crate::ndjson::line(
                crate::ndjson::row(ts, crate::ndjson::samples_by_name(shown)),
            )
            &&& r is Some ==> crate::ndjson::is_faithful(
                crate::ndjson::row(ts, crate::ndjson::samples_by_name(shown)),
            )
            &&& r is Some && crate::ndjson::are_plain(shown) ==> crate::ndjson::reads_back(
                crate::ndjson::row(ts, crate::ndjson::samples_by_name(shown)),
            )
        }),
{
    let venues = with_history();
    let ghost all = samples@;
    let mut shown: Vec<(Venue, VwapSample)> = Vec::new();
    let mut v: usize = 0;
    assert(all.take(0) =~= Seq::empty());
    for sample in it: samples
        invariant
            it.seq() == samples@,
            v == it.index(),
            all == samples@,
            venues@ == crate::venue::history_venues(),
            volumes@.len() == venues@.len(),
            all.len() == venues@.len(),
            shown@ == traded(venues@, volumes@, all.take(v as int)),
    {
        assert(all.take(v + 1).drop_last() =~= all.take(v as int));
        assert(all.take(v + 1)[v as int] == sample);
        if volumes[v].positive() {
            shown.push((venues[v], sample));
        }
        v = v + 1;
    }
    assert(all.take(all.len() as int) =~= all);
    if shown.len() == 0 {
        None
    } else {
        Some(vwap_results_line(ts, shown))
    }
}


/// The exchanges that a row shows are those in whose day something was traded, in
/// their order, each with its own figures.
pub proof fn what_was_traded_is_shown(
    venues: Seq<Venue>,
    volumes: Seq<Num>,
    samples: Seq<VwapSample>,
)
    requires
        venues.len() >= samples.len(),
        volumes.len() >= samples.len(),
    ensures
        traded(venues, volumes, samples) == Seq::new(
            samples.len(),
            |v: int| (venues[v], volumes[v], samples[v]),
        ).filter(
            |s: (Venue, Num, VwapSample)| !s.1.is_nan() && s.1.position() > 0,
        ).map_values(|s: (Venue, Num, VwapSample)| (s.0, s.2)),
    decreases samples.len(),
{
    reveal(Seq::filter);
    let keep = |s: (Venue, Num, VwapSample)| !s.1.is_nan() && s.1.position() > 0;
    let shown = |s: (Venue, Num, VwapSample)| (s.0, s.2);
    let all = Seq::new(samples.len(), |v: int| (venues[v], volumes[v], samples[v]));
    if samples.len() > 0 {
        let fewer = samples.drop_last();
        let some = Seq::new(fewer.len(), |v: int| (venues[v], volumes[v], fewer[v]));
        what_was_traded_is_shown(venues, volumes, fewer);
        assert(all.drop_last() =~= some);
        if keep(all.last()) {
            assert(some.filter(keep).push(all.last()).map_values(shown) =~= some.filter(
                keep,
            ).map_values(shown).push(shown(all.last())));
        }
    } else {
        assert(all.filter(keep).map_values(shown) =~= Seq::empty());
    }
}

} // verus!
