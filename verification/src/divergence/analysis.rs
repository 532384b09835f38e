//! How far the exchanges drift apart, minute by minute.
//!
//! The divergence of a slot is the largest deviation of a price from the mean
//! of the slot, in percent of that mean. Slots fall into four bands by their
//! divergence, and neighbouring slots of one of the upper three bands make up
//! an episode.

use vstd::prelude::*;

use crate::grid::Grid;
use crate::number::{Num, FIVE, HALF, ONE};
use crate::venue::{with_minutes, Venue};

verus! {

/// The grid step: one minute, in seconds.
pub const STEP: u64 = 60;

/// Finds the start of the minute that holds `ts`.
pub fn snap(ts: u64) -> (r: u64)
    ensures
        r == crate::grid::slot_start(ts as nat, STEP as nat),
{
    crate::grid::snap_to(ts, STEP)
}

// ---------------------------------------------------------------------------
// Bands
// ---------------------------------------------------------------------------

/// The band of a divergence in percent: below one half, below one, below five,
/// or anything else.
pub open spec fn band_of(percent: Num) -> int {
    if percent.below(Num { bits: HALF }) {
        0
    } else if percent.below(Num { bits: ONE }) {
        1
    } else if percent.below(Num { bits: FIVE }) {
        2
    } else {
        3
    }
}

/// Finds the band of a divergence in percent.
pub fn band(percent: Num) -> (r: usize)
    ensures
        r == band_of(percent),
{
    if percent.less(Num { bits: HALF }) {
        0
    } else if percent.less(Num { bits: ONE }) {
        1
    } else if percent.less(Num { bits: FIVE }) {
        2
    } else {
        3
    }
}

/// The name of a band.
pub open spec fn band_words(band: int) -> Seq<char> {
    if band == 0 {
        "<0.5%"@
    } else if band == 1 {
        "0.5-1%"@
    } else if band == 2 {
        "1-5%"@
    } else {
        ">=5%"@
    }
}

/// Names a band.
pub fn band_label(band: usize) -> (r: &'static str)
    ensures
        r@ == band_words(band as int),
{
    if band == 0 {
        "<0.5%"
    } else if band == 1 {
        "0.5-1%"
    } else if band == 2 {
        "1-5%"
    } else {
        ">=5%"
    }
}

/// Every divergence falls in one band, and a larger one never in a lower band.
pub proof fn bands_are_ordered(a: Num, b: Num)
    requires
        a.below(b),
    ensures
        0 <= band_of(a) <= band_of(b) <= 3,
{
}

/// A divergence is in the band whose bounds it lies between: from the lower one
/// on, and below the upper one. What is not a number is in the highest band.
pub proof fn bands_are_half_open(percent: Num)
    ensures
        band_of(percent) == 0 <==> percent.below(Num { bits: HALF }),
        band_of(percent) == 1 <==> !percent.is_nan() && !percent.below(Num { bits: HALF })
            && percent.below(Num { bits: ONE }),
        band_of(percent) == 2 <==> !percent.is_nan() && !percent.below(Num { bits: ONE })
            && percent.below(Num { bits: FIVE }),
        band_of(percent) == 3 <==> percent.is_nan() || !percent.below(Num { bits: FIVE }),
{
}

// ---------------------------------------------------------------------------
// One slot
// ---------------------------------------------------------------------------

/// What arithmetic gives for the prices of one slot.
pub struct SlotFigures {
    /// The mean of the prices.
    pub mean: Num,
    /// For each price its distance from the mean.
    pub deviations: Vec<Num>,
    /// For each price its distance from the mean, in percent of the mean.
    pub percents: Vec<Num>,
}

/// What is known of the divergence of one slot.
#[derive(Clone, Copy, Debug, PartialEq, Eq, Structural)]
pub struct Reading {
    /// The number of the exchange whose price lies farthest from the mean.
    pub venue: usize,
    /// That price.
    pub price: Num,
    /// The mean of the prices.
    pub mean: Num,
    /// The distance of that price from the mean, in percent of the mean.
    pub percent: Num,
    /// How many exchanges have a price.
    pub venues: usize,
}

/// The place of the largest among the first `n` deviations, the last of them
/// where several are as large. A deviation that is no number is as large as
/// any other.
pub open spec fn widest(deviations: Seq<Num>, n: nat) -> nat
    decreases n,
{
    if n <= 1 {
        0
    } else {
        let w = widest(deviations, (n - 1) as nat);
        if deviations[n - 1].below(deviations[w as int]) {
            w
        } else {
            (n - 1) as nat
        }
    }
}

/// Among numbers the place that `widest` gives holds the largest, and no later
/// place holds one as large.
pub proof fn widest_is_largest(deviations: Seq<Num>, n: nat, i: int)
    requires
        n <= deviations.len(),
        0 <= i < n,
        forall|k: int| 0 <= k < n ==> !(#[trigger] deviations[k]).is_nan(),
    ensures
        widest(deviations, n) < n,
        !deviations[widest(deviations, n) as int].below(deviations[i]),
        i > widest(deviations, n) ==> deviations[i].below(
            deviations[widest(deviations, n) as int],
        ),
    decreases n,
{
    if n > 1 {
        if i < n - 1 {
            widest_is_largest(deviations, (n - 1) as nat, i);
        } else {
            widest_is_largest(deviations, (n - 1) as nat, 0);
        }
    }
}

/// The widest deviation is one of those that there are.
pub proof fn widest_in_range(deviations: Seq<Num>, n: nat)
    requires
        n > 0,
    ensures
        widest(deviations, n) < n,
    decreases n,
{
    if n > 1 {
        widest_in_range(deviations, (n - 1) as nat);
    }
}

/// What is known of the divergence of a slot with these prices. There is
/// nothing to know with fewer than two.
pub open spec fn reading_of(
    cells: Seq<(usize, Num)>,
    mean: Num,
    deviations: Seq<Num>,
    percents: Seq<Num>,
) -> Option<Reading> {
    if cells.len() < 2 {
        None
    } else {
        let w = widest(deviations, cells.len()) as int;
        Some(
            Reading {
                venue: cells[w].0,
                price: cells[w].1,
                mean,
                percent: percents[w],
                venues: cells.len() as usize,
            },
        )
    }
}

/// A slot with two or more prices has a reading. It names one of the prices, with
/// the exchange that has it and its distance in percent; no price is farther
/// from the mean, as long as every distance is a number; and every price behind
/// it is nearer.
pub proof fn readings_name_the_farthest_price(
    cells: Seq<(usize, Num)>,
    mean: Num,
    deviations: Seq<Num>,
    percents: Seq<Num>,
) -> (w: int)
    requires
        2 <= cells.len() <= usize::MAX,
        deviations.len() == cells.len(),
        percents.len() == cells.len(),
    ensures
        0 <= w < cells.len(),
        reading_of(cells, mean, deviations, percents) matches Some(r) && {
            &&& r.venue == cells[w].0
            &&& r.price == cells[w].1
            &&& r.percent == percents[w]
            &&& r.mean == mean
            &&& r.venues == cells.len()
        },
        forall|i: int| w < i < cells.len() ==> (#[trigger] deviations[i]).below(deviations[w]),
        (forall|i: int| 0 <= i < cells.len() ==> !(#[trigger] deviations[i]).is_nan()) ==> (forall|
            i: int,
        |
            0 <= i < cells.len() ==> !deviations[w].below(#[trigger] deviations[i])),
{
    let n = cells.len();
    let w = widest(deviations, n) as int;
    widest_in_range(deviations, n);
    lemma_later_are_nearer(deviations, n);
    if forall|i: int| 0 <= i < n ==> !(#[trigger] deviations[i]).is_nan() {
        assert forall|i: int| 0 <= i < n implies !deviations[w].below(#[trigger] deviations[i]) by {
            widest_is_largest(deviations, n, i);
        }
    }
    w
}

/// There is nothing to know of a slot with fewer than two prices.
pub proof fn two_prices_make_a_reading(
    cells: Seq<(usize, Num)>,
    mean: Num,
    deviations: Seq<Num>,
    percents: Seq<Num>,
)
    ensures
        reading_of(cells, mean, deviations, percents) is None <==> cells.len() <= 1,
{
}

proof fn lemma_later_are_nearer(deviations: Seq<Num>, n: nat)
    requires
        n <= deviations.len(),
    ensures
        forall|i: int|
            widest(deviations, n) < i < n ==> (#[trigger] deviations[i]).below(
                deviations[widest(deviations, n) as int],
            ),
    decreases n,
{
    if n > 1 {
        lemma_later_are_nearer(deviations, (n - 1) as nat);
    }
}

/// Whether the figures are those of a slot with `n` prices. A slot with fewer
/// than two needs none.
pub open spec fn figures_fit(figures: SlotFigures, n: nat) -> bool {
    n >= 2 ==> figures.deviations@.len() == n && figures.percents@.len() == n
}

/// Finds the price of a slot that lies farthest from the mean.
pub fn read_slot(cells: &Vec<(usize, Num)>, figures: &SlotFigures) -> (r: Option<Reading>)
    requires
        figures_fit(*figures, cells@.len()),
    ensures
        r == reading_of(cells@, figures.mean, figures.deviations@, figures.percents@),
        r is Some <==> cells@.len() >= 2,
        r matches Some(reading) ==> exists|w: int|
            {
                &&& 0 <= w < cells@.len()
                &&& #[trigger] cells@[w] == (reading.venue, reading.price)
                &&& figures.percents@[w] == reading.percent
                &&& forall|i: int|
                    w < i < cells@.len() ==> (#[trigger] figures.deviations@[i]).below(
                        figures.deviations@[w],
                    )
                &&& (forall|i: int|
                    0 <= i < cells@.len() ==> !(#[trigger] figures.deviations@[i]).is_nan()) ==> (
                forall|i: int|
                    0 <= i < cells@.len() ==> !figures.deviations@[w].below(
                        #[trigger] figures.deviations@[i],
                    ))
            },
{
    proof {
        assert(cells@.len() == cells.len());
        if cells@.len() >= 2 {
            let w = readings_name_the_farthest_price(
                cells@,
                figures.mean,
                figures.deviations@,
                figures.percents@,
            );
            let reading = reading_of(
                cells@,
                figures.mean,
                figures.deviations@,
                figures.percents@,
            )->Some_0;
            assert(cells@[w] == (reading.venue, reading.price));
        }
    }
    if cells.len() < 2 {
        return None;
    }
    let mut w: usize = 0;
    let mut i: usize = 1;
    while i < cells.len()
        invariant
            1 <= i <= cells.len(),
            cells.len() == figures.deviations@.len(),
            w < i,
            w == widest(figures.deviations@, i as nat),
        decreases cells.len() - i,
    {
        if !figures.deviations[i].less(figures.deviations[w]) {
            w = i;
        }
        i = i + 1;
    }
    Some(
        Reading {
            venue: cells[w].0,
            price: cells[w].1,
            mean: figures.mean,
            percent: figures.percents[w],
            venues: cells.len(),
        },
    )
}

// ---------------------------------------------------------------------------
// Episodes
// ---------------------------------------------------------------------------

/// Neighbouring slots whose divergence is in the same band.
#[derive(Clone, Copy, Debug, PartialEq, Eq, Structural)]
pub struct Episode {
    pub band: usize,
    pub start_ts: u64,
    /// Exclusive.
    pub end_ts: u64,
    pub peak_pct: Num,
    pub peak_ts: u64,
    /// The number of the exchange that was farthest off at the peak.
    pub peak_venue: usize,
    pub peak_price: Num,
    pub mean_at_peak: Num,
    pub venues_at_peak: usize,
}

/// The time of the slot with the number `i` in a window that starts at `from`.
pub open spec fn slot_ts(from: u64, i: int) -> u64 {
    (from + STEP * i) as u64
}

/// An episode of the one slot at `ts`.
pub open spec fn episode_at(ts: u64, r: Reading) -> Episode {
    Episode {
        band: band_of(r.percent) as usize,
        start_ts: ts,
        end_ts: (ts + STEP) as u64,
        peak_pct: r.percent,
        peak_ts: ts,
        peak_venue: r.venue,
        peak_price: r.price,
        mean_at_peak: r.mean,
        venues_at_peak: r.venues,
    }
}

/// An episode with the next slot, at `ts`, added. The peak moves only to a
/// divergence that is larger.
pub open spec fn extended(e: Episode, ts: u64, r: Reading) -> Episode {
    if e.peak_pct.below(r.percent) {
        Episode { band: e.band, start_ts: e.start_ts, ..episode_at(ts, r) }
    } else {
        Episode { end_ts: (ts + STEP) as u64, ..e }
    }
}

/// The episodes of some slots: those that are over, and the one that lasts to
/// the end of the slots.
pub struct Runs {
    pub done: Seq<Episode>,
    pub open: Option<Episode>,
}

impl Runs {
    /// All episodes, in the order of time.
    pub open spec fn all(self) -> Seq<Episode> {
        match self.open {
            Some(e) => self.done.push(e),
            None => self.done,
        }
    }

    /// The episodes with one more slot, at `ts`.
    pub open spec fn and_slot(self, ts: u64, slot: Option<Reading>) -> Runs {
        match slot {
            Some(r) if band_of(r.percent) > 0 => match self.open {
                Some(e) if e.band == band_of(r.percent) => Runs {
                    done: self.done,
                    open: Some(extended(e, ts, r)),
                },
                _ => Runs { done: self.all(), open: Some(episode_at(ts, r)) },
            },
            _ => Runs { done: self.all(), open: None },
        }
    }
}

/// The episodes of the slots of a window that starts at `from`.
pub open spec fn runs(slots: Seq<Option<Reading>>, from: u64) -> Runs
    decreases slots.len(),
{
    if slots.len() == 0 {
        Runs { done: Seq::empty(), open: None }
    } else {
        runs(slots.drop_last(), from).and_slot(slot_ts(from, slots.len() - 1), slots.last())
    }
}

/// How many slots are in a band.
pub open spec fn band_count(slots: Seq<Option<Reading>>, band: int) -> nat
    decreases slots.len(),
{
    if slots.len() == 0 {
        0
    } else {
        band_count(slots.drop_last(), band) + match slots.last() {
            Some(r) if band_of(r.percent) == band => 1nat,
            _ => 0nat,
        }
    }
}

/// How many slots have fewer than two prices.
pub open spec fn sparse_count(slots: Seq<Option<Reading>>) -> nat
    decreases slots.len(),
{
    if slots.len() == 0 {
        0
    } else {
        sparse_count(slots.drop_last()) + match slots.last() {
            Some(_) => 0nat,
            None => 1nat,
        }
    }
}

/// How many of the first `n` slots from `from` on an exchange has a price in.
pub open spec fn covered(column: Map<u64, Num>, from: u64, n: nat) -> nat
    decreases n,
{
    if n == 0 {
        0
    } else {
        covered(column, from, (n - 1) as nat) + if column.contains_key(slot_ts(from, n - 1)) {
            1nat
        } else {
            0nat
        }
    }
}

/// A band counts the slots whose divergence is in it, and no others; and those
/// without a divergence are counted apart.
pub proof fn counts_are_of_slots(slots: Seq<Option<Reading>>, band: int)
    ensures
        band_count(slots, band) == slots.filter(
            |s: Option<Reading>| s is Some && band_of(s->Some_0.percent) == band,
        ).len(),
        sparse_count(slots) == slots.filter(|s: Option<Reading>| s is None).len(),
    decreases slots.len(),
{
    reveal(Seq::filter);
    if slots.len() > 0 {
        counts_are_of_slots(slots.drop_last(), band);
    }
}

/// An exchange covers the slots in which it has a price, and no others.
pub proof fn coverage_is_of_slots(column: Map<u64, Num>, from: u64, n: nat)
    ensures
        covered(column, from, n) == Seq::new(
            n,
            |i: int| column.contains_key((from + 60 * i) as u64),
        ).filter(|b: bool| b).len(),
    decreases n,
{
    reveal(Seq::filter);
    let held = Seq::new(n, |i: int| column.contains_key((from + 60 * i) as u64));
    if n > 0 {
        let fewer = Seq::new((n - 1) as nat, |i: int| column.contains_key((from + 60 * i) as u64));
        coverage_is_of_slots(column, from, (n - 1) as nat);
        assert(held.drop_last() =~= fewer);
        assert(held.last() == column.contains_key(slot_ts(from, n - 1)));
    }
}

// ---------------------------------------------------------------------------
// A whole window
// ---------------------------------------------------------------------------

/// What is known of a window.
pub struct Analysis {
    /// How many whole steps the window spans.
    pub total_slots: u64,
    /// How many slots have fewer than two prices.
    pub no_data_slots: u64,
    /// For each band, how many slots are in it.
    pub band_slots: Vec<u64>,
    /// For each exchange, how many slots it has a price in.
    pub coverage: Vec<(Venue, u64)>,
    /// The episodes in the order of time.
    pub episodes: Vec<Episode>,
}

/// What is known of a window, with its counts as natural numbers.
#[verifier::ext_equal]
pub struct AnalysisView {
    pub total_slots: nat,
    pub no_data_slots: nat,
    pub band_slots: Seq<nat>,
    pub coverage: Seq<(Venue, nat)>,
    pub episodes: Seq<Episode>,
}

impl View for Analysis {
    type V = AnalysisView;

    open spec fn view(&self) -> AnalysisView {
        AnalysisView {
            total_slots: self.total_slots as nat,
            no_data_slots: self.no_data_slots as nat,
            band_slots: self.band_slots@.map_values(|n: u64| n as nat),
            coverage: self.coverage@.map_values(|c: (Venue, u64)| (c.0, c.1 as nat)),
            episodes: self.episodes@,
        }
    }
}

/// How many slots start in the window.
pub open spec fn window_slots(from: u64, to: u64) -> nat {
    crate::grid::slot_count(from as nat, to as nat, STEP as nat)
}

/// What is known of the divergence of each slot of the window.
pub open spec fn window_readings(
    columns: Seq<Map<u64, Num>>,
    from: u64,
    to: u64,
    figures: Seq<SlotFigures>,
) -> Seq<Option<Reading>> {
    Seq::new(
        window_slots(from, to),
        |i: int|
            reading_of(
                crate::grid::cells_at(columns, slot_ts(from, i)),
                figures[i].mean,
                figures[i].deviations@,
                figures[i].percents@,
            ),
    )
}

/// Whether the figures are those of the slots of the window.
pub open spec fn window_figures_fit(
    columns: Seq<Map<u64, Num>>,
    from: u64,
    to: u64,
    figures: Seq<SlotFigures>,
) -> bool {
    &&& figures.len() == window_slots(from, to)
    &&& forall|i: int|
        0 <= i < figures.len() ==> figures_fit(
            #[trigger] figures[i],
            crate::grid::cells_at(columns, slot_ts(from, i)).len(),
        )
}

/// What is known of a window, where arithmetic gives `figures` for the prices of
/// its slots.
pub open spec fn analysis_of(
    columns: Seq<Map<u64, Num>>,
    from: u64,
    to: u64,
    figures: Seq<SlotFigures>,
) -> AnalysisView {
    let slots = window_readings(columns, from, to, figures);
    AnalysisView {
        total_slots: ((to - from) / STEP as int) as nat,
        no_data_slots: sparse_count(slots),
        band_slots: Seq::new(4, |b: int| band_count(slots, b)),
        coverage: Seq::new(
            columns.len(),
            |v: int|
                (
                    crate::venue::minute_venues()[v],
                    covered(columns[v], from, window_slots(from, to)),
                ),
        ),
        episodes: runs(slots, from).all(),
    }
}

proof fn lemma_slots(from: u64, to: u64, i: int)
    requires
        from <= to,
        i >= 0,
    ensures
        from + STEP * i < to <==> i < window_slots(from, to),
{
    crate::grid::slots_lie_in_the_window(from as nat, to as nat, STEP as nat, i as nat);
}

fn close(done: Vec<Episode>, open: Option<Episode>) -> (r: Vec<Episode>)
    ensures
        r@ == (Runs { done: done@, open }).all(),
{
    let mut out = done;
    match open {
        Some(e) => {
            out.push(e);
        },
        None => {},
    }
    out
}

/// Analyses the window from `from` up to `to`. `figures` holds what arithmetic
/// gives for the prices of each slot.
pub fn analyze(grid: &Grid<Num>, from: u64, to: u64, figures: &Vec<SlotFigures>) -> (r: Analysis)
    requires
        grid@.len() == crate::venue::minute_venues().len(),
        from <= to <= u64::MAX - STEP,
        window_figures_fit(grid@, from, to, figures@),
    ensures
        r@ == analysis_of(grid@, from, to, figures@),
{
    let ghost readings = window_readings(grid@, from, to, figures@);
    let ghost slots = window_slots(from, to);
    let n: usize = grid.columns.len();
    let mut band_slots: Vec<u64> = vec![0, 0, 0, 0];
    let mut no_data_slots: u64 = 0;
    let mut counts: Vec<u64> = vec![0, 0, 0, 0, 0, 0];
    let mut episodes: Vec<Episode> = Vec::new();
    let mut current: Option<Episode> = None;
    let mut ts: u64 = from;
    let mut i: usize = 0;
    assert(readings.take(0) =~= Seq::empty());
    while ts < to
        invariant
            from <= to <= u64::MAX - STEP,
            ts == from + STEP * i,
            i <= slots,
            slots == window_slots(from, to),
            slots == figures@.len(),
            slots == readings.len(),
            n == grid@.len(),
            n == 6,
            readings == window_readings(grid@, from, to, figures@),
            window_figures_fit(grid@, from, to, figures@),
            band_slots@.len() == 4,
            forall|b: int|
                0 <= b < 4 ==> #[trigger] band_slots@[b] == band_count(
                    readings.take(i as int),
                    b,
                ) && band_slots@[b] <= i,
            no_data_slots == sparse_count(readings.take(i as int)),
            no_data_slots <= i,
            counts@.len() == n,
            forall|v: int|
                0 <= v < n ==> #[trigger] counts@[v] == covered(grid@[v], from, i as nat)
                    && counts@[v] <= i,
            (Runs { done: episodes@, open: current }) == runs(readings.take(i as int), from),
        decreases u64::MAX - ts,
    {
        proof {
            lemma_slots(from, to, i as int);
        }
        let ghost before = readings.take(i as int);
        let ghost after = readings.take(i + 1);
        assert(after.drop_last() =~= before);
        assert(after.last() == readings[i as int]);
        assert(slot_ts(from, i as int) == ts);
        assert(i < figures.len());

        let mut cells: Vec<(usize, Num)> = Vec::new();
        let mut v: usize = 0;
        let ghost counts_before = counts@;
        assert(grid@.take(0) =~= Seq::empty());
        while v < n
            invariant
                v <= n,
                n == grid@.len(),
                i < usize::MAX,
                slot_ts(from, i as int) == ts,
                cells@ == crate::grid::cells_at(grid@.take(v as int), ts),
                counts@.len() == n,
                counts_before.len() == n,
                forall|k: int|
                    v <= k < n ==> counts@[k] == counts_before[k],
                forall|k: int|
                    0 <= k < n ==> #[trigger] counts_before[k] == covered(
                        grid@[k],
                        from,
                        i as nat,
                    ) && counts_before[k] <= i,
                forall|k: int|
                    0 <= k < v ==> #[trigger] counts@[k] == covered(grid@[k], from, (i + 1) as nat)
                        && counts@[k] <= i + 1,
            decreases n - v,
        {
            assert(grid@.take(v + 1).drop_last() =~= grid@.take(v as int));
            assert(grid@.take(v + 1).last() == grid@[v as int]);
            assert(counts@[v as int] == counts_before[v as int]);
            match grid.cell(v, ts) {
                Some(price) => {
                    cells.push((v, price));
                    counts[v] = counts[v] + 1;
                },
                None => {},
            }
            v = v + 1;
        }
        assert(grid@.take(n as int) =~= grid@);

        assert(figures_fit(figures@[i as int], cells@.len()));
        let reading = read_slot(&cells, &figures[i]);
        assert(reading == readings[i as int]);
        match reading {
            Some(r) => {
                let b: usize = band(r.percent);
                band_slots[b] = band_slots[b] + 1;
                if b == 0 {
                    episodes = close(episodes, current);
                    current = None;
                } else {
                    let one = Episode {
                        band: b,
                        start_ts: ts,
                        end_ts: ts + STEP,
                        peak_pct: r.percent,
                        peak_ts: ts,
                        peak_venue: r.venue,
                        peak_price: r.price,
                        mean_at_peak: r.mean,
                        venues_at_peak: r.venues,
                    };
                    match current {
                        Some(e) if e.band == b => {
                            current = Some(
                                if e.peak_pct.less(r.percent) {
                                    Episode { start_ts: e.start_ts, ..one }
                                } else {
                                    Episode { end_ts: ts + STEP, ..e }
                                },
                            );
                        },
                        _ => {
                            episodes = close(episodes, current);
                            current = Some(one);
                        },
                    }
                }
            },
            None => {
                no_data_slots = no_data_slots + 1;
                episodes = close(episodes, current);
                current = None;
            },
        }
        ts = ts + STEP;
        i = i + 1;
    }
    proof {
        lemma_slots(from, to, i as int);
        assert(readings.take(i as int) =~= readings);
    }
    let episodes = close(episodes, current);
    let venues = with_minutes();
    let mut coverage: Vec<(Venue, u64)> = Vec::new();
    let mut v: usize = 0;
    while v < n
        invariant
            v <= n,
            n == 6,
            venues@ == crate::venue::minute_venues(),
            counts@.len() == n,
            coverage@.len() == v,
            forall|k: int|
                0 <= k < v ==> #[trigger] coverage@[k] == (
                    crate::venue::minute_venues()[k],
                    counts@[k],
                ),
        decreases n - v,
    {
        coverage.push((venues[v], counts[v]));
        v = v + 1;
    }
    let r = Analysis {
        total_slots: (to - from) / STEP,
        no_data_slots,
        band_slots,
        coverage,
        episodes,
    };
    assert(r@ =~= analysis_of(grid@, from, to, figures@));
    r
}

} // verus!
