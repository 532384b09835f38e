//! What holds of every analysis.

use vstd::prelude::*;

use super::analysis::{Episode, Reading, Runs, SlotFigures, STEP};
use crate::number::Num;

verus! {

/// The band of a slot, and 0 where it has none.
pub open spec fn slot_band(slot: Option<Reading>) -> int {
    match slot {
        Some(r) => super::analysis::band_of(r.percent),
        None => 0,
    }
}

/// The number of the slot at `ts` in a window that starts at `from`.
pub open spec fn slot_at(from: u64, ts: u64) -> int {
    (ts - from) / STEP as int
}

/// Whether the window is short enough for the times of all its slots to fit in
/// 64 bits.
pub open spec fn in_time(slots: Seq<Option<Reading>>, from: u64) -> bool {
    from + STEP * slots.len() <= u64::MAX
}

/// Whether the episode covers the slots from `a` up to `b`, all of them in its
/// band, and the slot before is not in that band.
pub open spec fn covers(slots: Seq<Option<Reading>>, from: u64, e: Episode, a: int, b: int) -> bool {
    &&& 0 <= a < b <= slots.len()
    &&& e.start_ts == from + STEP * a
    &&& e.end_ts == from + STEP * b
    &&& 1 <= e.band <= 3
    &&& forall|i: int| a <= i < b ==> slot_band(#[trigger] slots[i]) == e.band
    &&& a > 0 ==> slot_band(slots[a - 1]) != e.band
}

/// Whether the peak of the episode is what is known of the slot `p`, and `p` is
/// the first of the slots from `a` up to `b` with the largest divergence. A
/// first slot whose divergence is not a number stays the peak.
pub open spec fn peaks(
    slots: Seq<Option<Reading>>,
    from: u64,
    e: Episode,
    a: int,
    b: int,
    p: int,
) -> bool {
    &&& a <= p < b
    &&& e.peak_ts == from + STEP * p
    &&& slots[p] == Some(
        Reading {
            venue: e.peak_venue,
            price: e.peak_price,
            mean: e.mean_at_peak,
            percent: e.peak_pct,
            venues: e.venues_at_peak,
        },
    )
    &&& forall|i: int| a <= i < b ==> !e.peak_pct.below((#[trigger] slots[i])->Some_0.percent)
    &&& forall|i: int|
        a <= i < p ==> (#[trigger] slots[i])->Some_0.percent.is_nan()
            || slots[i]->Some_0.percent.below(e.peak_pct)
    &&& slots[a]->Some_0.percent.is_nan() ==> p == a
}

/// Whether the episode is a run of slots of one band that starts where such a
/// run can start, with its peak where it belongs.
pub open spec fn is_run(slots: Seq<Option<Reading>>, from: u64, e: Episode) -> bool {
    let a = slot_at(from, e.start_ts);
    let b = slot_at(from, e.end_ts);
    covers(slots, from, e, a, b) && peaks(slots, from, e, a, b, slot_at(from, e.peak_ts))
}

/// Whether the slot behind the episode, if there is one, is not in its band.
pub open spec fn is_over(slots: Seq<Option<Reading>>, from: u64, e: Episode) -> bool {
    let b = slot_at(from, e.end_ts);
    b < slots.len() ==> slot_band(slots[b]) != e.band
}

proof fn lemma_run_stays(slots: Seq<Option<Reading>>, from: u64, e: Episode)
    requires
        slots.len() > 0,
        is_run(slots.drop_last(), from, e),
    ensures
        is_run(slots, from, e),
{
    let shorter = slots.drop_last();
    let a = slot_at(from, e.start_ts);
    let b = slot_at(from, e.end_ts);
    let p = slot_at(from, e.peak_ts);
    assert forall|i: int| a <= i < b implies slot_band(#[trigger] slots[i]) == e.band by {
        assert(slots[i] == shorter[i]);
    }
    assert(a > 0 ==> slots[a - 1] == shorter[a - 1]);
    assert(slots[p] == shorter[p]);
    assert(slots[a] == shorter[a]);
    assert forall|i: int| a <= i < b implies !e.peak_pct.below(
        (#[trigger] slots[i])->Some_0.percent,
    ) by {
        assert(slots[i] == shorter[i]);
    }
    assert forall|i: int| a <= i < p implies (#[trigger] slots[i])->Some_0.percent.is_nan()
        || slots[i]->Some_0.percent.below(e.peak_pct) by {
        assert(slots[i] == shorter[i]);
    }
}

/// What holds of the episodes of some slots, whether they are over or not.
spec fn sound(slots: Seq<Option<Reading>>, from: u64, r: Runs) -> bool {
    &&& forall|j: int|
        0 <= j < r.done.len() ==> is_run(slots, from, #[trigger] r.done[j]) && is_over(
            slots,
            from,
            r.done[j],
        ) && slot_at(from, r.done[j].end_ts) <= slots.len()
    &&& r.open matches Some(e) ==> is_run(slots, from, e) && slot_at(from, e.end_ts) == slots.len()
    &&& r.open is None && slots.len() > 0 ==> slot_band(slots.last()) == 0
    &&& forall|j: int, k: int|
        0 <= j < k < r.all().len() ==> (#[trigger] r.all()[j]).end_ts <= (
        #[trigger] r.all()[k]).start_ts
    &&& forall|i: int|
        0 <= i < slots.len() && slot_band(#[trigger] slots[i]) > 0 ==> exists|j: int|
            0 <= j < r.all().len() && within(from, i, #[trigger] r.all()[j])
}

/// Whether the slot `i` is one of those of the episode.
pub open spec fn within(from: u64, i: int, e: Episode) -> bool {
    e.start_ts <= from + STEP * i < e.end_ts
}

proof fn lemma_one_slot(slots: Seq<Option<Reading>>, from: u64, r: Reading)
    requires
        slots.len() > 0,
        in_time(slots, from),
        slots.last() == Some(r),
        slot_band(slots.last()) > 0,
        slots.len() > 1 ==> slot_band(slots[slots.len() - 2]) != slot_band(slots.last()),
    ensures
        is_run(
            slots,
            from,
            super::analysis::episode_at(super::analysis::slot_ts(from, slots.len() - 1), r),
        ),
{
    let n = slots.len() - 1;
    let ts = super::analysis::slot_ts(from, n);
    let e = super::analysis::episode_at(ts, r);
    assert(slot_at(from, ts) == n);
    assert(slot_at(from, e.end_ts) == n + 1);
    assert(covers(slots, from, e, n, n + 1));
    assert(peaks(slots, from, e, n, n + 1, n));
}

proof fn lemma_one_more_slot(slots: Seq<Option<Reading>>, from: u64, e: Episode, r: Reading)
    requires
        slots.len() > 0,
        in_time(slots, from),
        slots.last() == Some(r),
        is_run(slots.drop_last(), from, e),
        slot_at(from, e.end_ts) == slots.len() - 1,
        super::analysis::band_of(r.percent) == e.band,
    ensures
        is_run(
            slots,
            from,
            super::analysis::extended(e, super::analysis::slot_ts(from, slots.len() - 1), r),
        ),
{
    let shorter = slots.drop_last();
    let n = slots.len() - 1;
    let ts = super::analysis::slot_ts(from, n);
    let x = super::analysis::extended(e, ts, r);
    lemma_run_stays(slots, from, e);
    let a = slot_at(from, e.start_ts);
    let p = slot_at(from, e.peak_ts);
    assert(slot_at(from, ts) == n);
    assert(slot_at(from, x.end_ts) == n + 1);
    assert(covers(slots, from, e, a, n));
    assert(covers(slots, from, x, a, n + 1)) by {
        assert forall|i: int| a <= i < n + 1 implies slot_band(#[trigger] slots[i]) == x.band by {
            if i < n {
                assert(slot_band(slots[i]) == e.band);
            }
        }
    }
    assert(peaks(slots, from, e, a, n, p));
    let q = slot_at(from, x.peak_ts);
    if e.peak_pct.below(r.percent) {
        assert(q == n);
        assert forall|i: int| a <= i < n + 1 implies !x.peak_pct.below(
            (#[trigger] slots[i])->Some_0.percent,
        ) by {
            if i < n {
                assert(!e.peak_pct.below(slots[i]->Some_0.percent));
            }
        }
        assert forall|i: int| a <= i < n implies (#[trigger] slots[i])->Some_0.percent.is_nan()
            || slots[i]->Some_0.percent.below(x.peak_pct) by {
            assert(!e.peak_pct.below(slots[i]->Some_0.percent));
        }
    } else {
        assert(q == p);
    }
    assert(peaks(slots, from, x, a, n + 1, q));
}

proof fn lemma_sound(slots: Seq<Option<Reading>>, from: u64)
    requires
        in_time(slots, from),
    ensures
        sound(slots, from, super::analysis::runs(slots, from)),
    decreases slots.len(),
{
    if slots.len() > 0 {
        let shorter = slots.drop_last();
        let n = slots.len() - 1;
        let ts = super::analysis::slot_ts(from, n);
        let before = super::analysis::runs(shorter, from);
        let after = super::analysis::runs(slots, from);
        lemma_sound(shorter, from);
        let last = slots.last();
        // What was over stays over.
        assert forall|j: int| 0 <= j < before.done.len() implies is_run(
            slots,
            from,
            #[trigger] before.done[j],
        ) && is_over(slots, from, before.done[j]) && slot_at(from, before.done[j].end_ts)
            <= slots.len() by {
            lemma_run_stays(slots, from, before.done[j]);
            let b = slot_at(from, before.done[j].end_ts);
            if b < n {
                assert(slots[b] == shorter[b]);
            } else {
                lemma_done_ends_early(shorter, from, j);
            }
        }
        if let Some(e) = before.open {
            lemma_run_stays(slots, from, e);
            assert(before.all()[before.done.len() as int] == e);
        }
        let continues = before.open is Some && slot_band(last) > 0 && before.open->Some_0.band
            == slot_band(last);
        if continues {
            lemma_one_more_slot(slots, from, before.open->Some_0, last->Some_0);
        } else if slot_band(last) > 0 {
            if n > 0 {
                if let Some(e) = before.open {
                    assert(slot_band(shorter[n - 1]) == e.band);
                }
                assert(slots[n - 1] == shorter.last());
            }
            lemma_one_slot(slots, from, last->Some_0);
        }
        // Order.
        assert forall|j: int, k: int| 0 <= j < k < after.all().len() implies (
        #[trigger] after.all()[j]).end_ts <= (#[trigger] after.all()[k]).start_ts by {
            if k < before.all().len() {
                assert(before.all()[j].end_ts <= before.all()[k].start_ts);
            } else {
                assert(is_run(shorter, from, before.all()[j]));
            }
        }
        // Every slot of an upper band.
        assert forall|i: int| 0 <= i < slots.len() && slot_band(#[trigger] slots[i]) > 0 implies exists|
            j: int,
        |
            0 <= j < after.all().len() && within(from, i, #[trigger] after.all()[j]) by {
            if i < n {
                assert(slots[i] == shorter[i]);
                let j = choose|j: int|
                    0 <= j < before.all().len() && within(from, i, #[trigger] before.all()[j]);
                assert(within(from, i, after.all()[j]));
            } else {
                let j = after.all().len() - 1;
                assert(within(from, i, after.all()[j]));
            }
        }
    }
}

/// An episode that is over ends before the last slot.
proof fn lemma_done_ends_early(slots: Seq<Option<Reading>>, from: u64, j: int)
    requires
        in_time(slots, from),
        0 <= j < super::analysis::runs(slots, from).done.len(),
    ensures
        slot_at(from, super::analysis::runs(slots, from).done[j].end_ts) < slots.len(),
    decreases slots.len(),
{
    if slots.len() > 0 {
        let shorter = slots.drop_last();
        let before = super::analysis::runs(shorter, from);
        lemma_sound(shorter, from);
        if j < before.done.len() {
            lemma_done_ends_early(shorter, from, j);
        } else {
            assert(before.open is Some);
        }
    }
}

/// Every episode is a run of neighbouring slots of one band that no slot of the
/// same band adjoins, and its peak is the first slot of the run with the
/// largest divergence.
pub proof fn episodes_are_maximal_runs(slots: Seq<Option<Reading>>, from: u64, j: int)
    requires
        in_time(slots, from),
        0 <= j < super::analysis::runs(slots, from).all().len(),
    ensures
        is_run(slots, from, super::analysis::runs(slots, from).all()[j]),
        is_over(slots, from, super::analysis::runs(slots, from).all()[j]),
{
    lemma_sound(slots, from);
    let r = super::analysis::runs(slots, from);
    if j < r.done.len() {
        assert(r.all()[j] == r.done[j]);
    }
}

/// Episodes are in the order of time and share no slot.
pub proof fn episodes_are_in_order(slots: Seq<Option<Reading>>, from: u64, j: int, k: int)
    requires
        in_time(slots, from),
        0 <= j < k < super::analysis::runs(slots, from).all().len(),
    ensures
        super::analysis::runs(slots, from).all()[j].end_ts <= super::analysis::runs(
            slots,
            from,
        ).all()[k].start_ts,
{
    lemma_sound(slots, from);
}

/// Every slot of the upper three bands is one of an episode.
pub proof fn every_divergent_slot_is_in_an_episode(
    slots: Seq<Option<Reading>>,
    from: u64,
    i: int,
) -> (j: int)
    requires
        in_time(slots, from),
        0 <= i < slots.len(),
        slot_band(slots[i]) > 0,
    ensures
        0 <= j < super::analysis::runs(slots, from).all().len(),
        within(from, i, super::analysis::runs(slots, from).all()[j]),
{
    lemma_sound(slots, from);
    let all = super::analysis::runs(slots, from).all();
    choose|j: int| 0 <= j < all.len() && within(from, i, #[trigger] all[j])
}

/// Every slot is in one of the four bands or has fewer than two prices: the
/// counts add up to the number of slots.
pub proof fn counts_add_up(slots: Seq<Option<Reading>>)
    ensures
        super::analysis::band_count(slots, 0) + super::analysis::band_count(slots, 1)
            + super::analysis::band_count(slots, 2) + super::analysis::band_count(slots, 3)
            + super::analysis::sparse_count(slots) == slots.len(),
    decreases slots.len(),
{
    if slots.len() > 0 {
        counts_add_up(slots.drop_last());
    }
}

/// How many slots the episodes of a band span.
pub open spec fn slots_in_episodes(episodes: Seq<Episode>, band: int) -> int
    decreases episodes.len(),
{
    if episodes.len() == 0 {
        0
    } else {
        slots_in_episodes(episodes.drop_last(), band) + if episodes.last().band == band {
            (episodes.last().end_ts - episodes.last().start_ts) / STEP as int
        } else {
            0
        }
    }
}

/// The episodes of a band span as many slots as the band counts.
pub proof fn episodes_span_their_band(slots: Seq<Option<Reading>>, from: u64, band: int)
    requires
        in_time(slots, from),
        1 <= band <= 3,
    ensures
        slots_in_episodes(super::analysis::runs(slots, from).all(), band)
            == super::analysis::band_count(slots, band),
    decreases slots.len(),
{
    let after = super::analysis::runs(slots, from);
    if slots.len() > 0 {
        let shorter = slots.drop_last();
        let before = super::analysis::runs(shorter, from);
        episodes_span_their_band(shorter, from, band);
        lemma_sound(shorter, from);
        lemma_sound(slots, from);
        if let Some(e) = before.open {
            assert(before.all().drop_last() =~= before.done);
            assert(before.all().last() == e);
        }
        if let Some(e) = after.open {
            assert(after.all().drop_last() =~= after.done);
            assert(after.all().last() == e);
        }
        let last = slots.last();
        if slot_band(last) > 0 {
            let x = after.open->Some_0;
            if let Some(e) = before.open {
                if e.band == slot_band(last) {
                    assert(x.start_ts == e.start_ts);
                    assert(x.end_ts == e.end_ts + STEP);
                }
            }
        }
    }
}

/// The peak of an episode is what the columns hold: the exchange has that price
/// at that time, which is one of the times of the episode; no exchange has one
/// farther from the mean, as long as the distances are numbers; and the figures
/// are those of that slot.
#[verifier::rlimit(60)]
pub proof fn peaks_are_what_the_columns_hold(
    columns: Seq<Map<u64, Num>>,
    from: u64,
    to: u64,
    figures: Seq<SlotFigures>,
    j: int,
) -> (at: (int, int))
    requires
        columns.len() <= usize::MAX,
        from <= to <= u64::MAX - 60,
        super::analysis::window_figures_fit(columns, from, to, figures),
        0 <= j < super::analysis::analysis_of(columns, from, to, figures).episodes.len(),
    ensures
        ({
            let e = super::analysis::analysis_of(columns, from, to, figures).episodes[j];
            let (p, w) = at;
            let cells = crate::grid::cells_at(columns, e.peak_ts);
            &&& 0 <= p < figures.len()
            &&& e.peak_ts == from + 60 * p
            &&& from <= e.start_ts <= e.peak_ts < e.end_ts
            &&& (e.start_ts - from) % 60 == 0
            &&& (e.end_ts - from) % 60 == 0
            &&& e.end_ts < to + 60
            &&& e.peak_venue < columns.len()
            &&& columns[e.peak_venue as int].contains_key(e.peak_ts)
            &&& columns[e.peak_venue as int][e.peak_ts] == e.peak_price
            &&& e.mean_at_peak == figures[p].mean
            &&& e.venues_at_peak == cells.len() && cells.len() >= 2
            &&& 0 <= w < cells.len()
            &&& cells[w] == (e.peak_venue, e.peak_price)
            &&& e.peak_pct == figures[p].percents@[w]
            &&& e.band == super::analysis::band_of(e.peak_pct)
            &&& (forall|i: int| 0 <= i < cells.len() ==> !(#[trigger] figures[p].deviations@[i]).is_nan())
                ==> (forall|i: int|
                0 <= i < cells.len() ==> !figures[p].deviations@[w].below(
                    #[trigger] figures[p].deviations@[i],
                ))
        }),
{
    let slots = super::analysis::window_readings(columns, from, to, figures);
    let n = super::analysis::window_slots(from, to);
    if n > 0 {
        crate::grid::slots_lie_in_the_window(from as nat, to as nat, STEP as nat, (n - 1) as nat);
    }
    assert(in_time(slots, from));
    episodes_are_maximal_runs(slots, from, j);
    let e = super::analysis::runs(slots, from).all()[j];
    let a = slot_at(from, e.start_ts);
    let b = slot_at(from, e.end_ts);
    let p = slot_at(from, e.peak_ts);
    assert(covers(slots, from, e, a, b));
    assert(peaks(slots, from, e, a, b, p));
    crate::grid::slots_lie_in_the_window(from as nat, to as nat, STEP as nat, (b - 1) as nat);
    let ts = super::analysis::slot_ts(from, p);
    assert(ts == e.peak_ts);
    let cells = crate::grid::cells_at(columns, ts);
    assert(super::analysis::figures_fit(figures[p], cells.len()));
    crate::grid::cells_are_what_is_held(columns, ts);
    super::analysis::two_prices_make_a_reading(
        cells,
        figures[p].mean,
        figures[p].deviations@,
        figures[p].percents@,
    );
    lemma_cells_fit(columns, ts);
    let w = super::analysis::readings_name_the_farthest_price(
        cells,
        figures[p].mean,
        figures[p].deviations@,
        figures[p].percents@,
    );
    assert(slot_band(slots[p]) == e.band);
    (p, w)
}

proof fn lemma_cells_fit(columns: Seq<Map<u64, Num>>, ts: u64)
    ensures
        crate::grid::cells_at(columns, ts).len() <= columns.len(),
    decreases columns.len(),
{
    if columns.len() > 0 {
        lemma_cells_fit(columns.drop_last(), ts);
    }
}

/// What an analysis counts: the whole minutes of the window, the slots of each
/// band and those with fewer than two prices, and for each exchange the slots
/// in which it has a price.
#[verifier::rlimit(60)]
pub proof fn analyses_count_slots(
    columns: Seq<Map<u64, Num>>,
    from: u64,
    to: u64,
    figures: Seq<SlotFigures>,
)
    requires
        columns.len() <= crate::venue::minute_venues().len(),
        from <= to,
    ensures
        ({
            let a = super::analysis::analysis_of(columns, from, to, figures);
            let n = super::analysis::window_slots(from, to);
            let slots = super::analysis::window_readings(columns, from, to, figures);
            &&& a.total_slots * 60 <= to - from < (a.total_slots + 1) * 60
            &&& slots.len() == n
            &&& (n as int - 1) * 60 < to - from <= n * 60
            &&& forall|i: int|
                0 <= i < n ==> ((#[trigger] slots[i]) is None <==> crate::grid::cells_at(
                    columns,
                    (from + 60 * i) as u64,
                ).len() <= 1)
            &&& forall|i: int|
                0 <= i < n ==> #[trigger] slots[i] == super::analysis::reading_of(
                    crate::grid::cells_at(columns, (from + 60 * i) as u64),
                    figures[i].mean,
                    figures[i].deviations@,
                    figures[i].percents@,
                )
            &&& a.no_data_slots == slots.filter(|s: Option<Reading>| s is None).len()
            &&& a.band_slots.len() == 4
            &&& forall|b: int|
                0 <= b < 4 ==> #[trigger] a.band_slots[b] == slots.filter(
                    |s: Option<Reading>|
                        s is Some && super::analysis::band_of(s->Some_0.percent) == b,
                ).len()
            &&& a.coverage.len() == columns.len()
            &&& forall|v: int|
                0 <= v < columns.len() ==> (#[trigger] a.coverage[v]).0
                    == crate::venue::minute_venues()[v] && a.coverage[v].1 == Seq::new(
                    n,
                    |i: int| columns[v].contains_key((from + 60 * i) as u64),
                ).filter(|b: bool| b).len()
        }),
{
    let a = super::analysis::analysis_of(columns, from, to, figures);
    let n = super::analysis::window_slots(from, to);
    let slots = super::analysis::window_readings(columns, from, to, figures);
    super::analysis::counts_are_of_slots(slots, 0);
    assert forall|b: int| 0 <= b < 4 implies #[trigger] a.band_slots[b] == slots.filter(
        |s: Option<Reading>| s is Some && super::analysis::band_of(s->Some_0.percent) == b,
    ).len() by {
        super::analysis::counts_are_of_slots(slots, b);
    }
    assert forall|v: int| 0 <= v < columns.len() implies (#[trigger] a.coverage[v]).0
        == crate::venue::minute_venues()[v] && a.coverage[v].1 == Seq::new(
        n,
        |i: int| columns[v].contains_key((from + 60 * i) as u64),
    ).filter(|b: bool| b).len() by {
        super::analysis::coverage_is_of_slots(columns[v], from, n);
    }
}

/// Two sets of columns that hold the same in every slot of a window give the
/// same analysis of it, whatever they hold elsewhere.
pub proof fn analysis_is_local(
    a: Seq<Map<u64, Num>>,
    b: Seq<Map<u64, Num>>,
    from: u64,
    to: u64,
    figures: Seq<SlotFigures>,
)
    requires
        a.len() == b.len(),
        forall|v: int, i: int|
            0 <= v < a.len() && 0 <= i < super::analysis::window_slots(from, to)
                ==> crate::grid::held(
                #[trigger] a[v],
                #[trigger] super::analysis::slot_ts(from, i),
            ) == crate::grid::held(b[v], super::analysis::slot_ts(from, i)),
    ensures
        super::analysis::analysis_of(a, from, to, figures)
            == super::analysis::analysis_of(b, from, to, figures),
        super::analysis::window_figures_fit(a, from, to, figures)
            <==> super::analysis::window_figures_fit(b, from, to, figures),
{
    let n = super::analysis::window_slots(from, to);
    let x = super::analysis::window_readings(a, from, to, figures);
    let y = super::analysis::window_readings(b, from, to, figures);
    assert forall|i: int| 0 <= i < n implies crate::grid::cells_at(
        a,
        #[trigger] super::analysis::slot_ts(from, i),
    ) == crate::grid::cells_at(b, super::analysis::slot_ts(from, i)) by {
        let ts = super::analysis::slot_ts(from, i);
        assert forall|v: int| 0 <= v < a.len() implies crate::grid::held(#[trigger] a[v], ts)
            == crate::grid::held(b[v], ts) by {}
        crate::grid::cells_depend_on_what_is_held(a, b, ts);
    }
    assert forall|i: int| 0 <= i < n implies #[trigger] x[i] == y[i] by {
        let ts = super::analysis::slot_ts(from, i);
        assert(crate::grid::cells_at(a, ts) == crate::grid::cells_at(b, ts));
    }
    assert(x =~= y);
    assert forall|v: int| 0 <= v < a.len() implies super::analysis::covered(
        #[trigger] a[v],
        from,
        n,
    ) == super::analysis::covered(b[v], from, n) by {
        assert forall|i: int| 0 <= i < n implies crate::grid::held(
            a[v],
            #[trigger] super::analysis::slot_ts(from, i),
        ) == crate::grid::held(b[v], super::analysis::slot_ts(from, i)) by {}
        lemma_coverage_is_local(a[v], b[v], from, n);
    }
    assert(super::analysis::analysis_of(a, from, to, figures)
        =~= super::analysis::analysis_of(b, from, to, figures));
    assert forall|i: int| 0 <= i < figures.len() && figures.len() == n implies (
    super::analysis::figures_fit(
        #[trigger] figures[i],
        crate::grid::cells_at(a, super::analysis::slot_ts(from, i)).len(),
    ) <==> super::analysis::figures_fit(
        figures[i],
        crate::grid::cells_at(b, super::analysis::slot_ts(from, i)).len(),
    )) by {
        let ts = super::analysis::slot_ts(from, i);
        assert(crate::grid::cells_at(a, ts) == crate::grid::cells_at(b, ts));
    }
}

proof fn lemma_coverage_is_local(a: Map<u64, Num>, b: Map<u64, Num>, from: u64, n: nat)
    requires
        forall|i: int|
            0 <= i < n ==> crate::grid::held(
                a,
                #[trigger] super::analysis::slot_ts(from, i),
            ) == crate::grid::held(b, super::analysis::slot_ts(from, i)),
    ensures
        super::analysis::covered(a, from, n)
            == super::analysis::covered(b, from, n),
    decreases n,
{
    if n > 0 {
        lemma_coverage_is_local(a, b, from, (n - 1) as nat);
        let ts = super::analysis::slot_ts(from, n - 1);
        assert(crate::grid::held(a, ts) == crate::grid::held(b, ts));
    }
}

// ---------------------------------------------------------------------------
// Splitting a window
// ---------------------------------------------------------------------------

/// Whether the last of some episodes and the first of some others are one that
/// was cut at `mid`.
pub open spec fn meet(a: Seq<Episode>, b: Seq<Episode>, mid: u64) -> bool {
    &&& a.len() > 0
    &&& b.len() > 0
    &&& a.last().end_ts == mid
    &&& b[0].start_ts == mid
    &&& a.last().band == b[0].band
}

/// Whether `m` is the one episode that `a` and `b` are the two parts of. Where
/// the divergence at the peak of `b` is a number, the peak is that of `b` if it
/// is larger and that of `a` if it is not.
pub open spec fn merges(a: Episode, b: Episode, m: Episode) -> bool {
    &&& a.band == b.band
    &&& m.band == a.band
    &&& m.start_ts == a.start_ts
    &&& m.end_ts == b.end_ts
    &&& !b.peak_pct.is_nan() ==> m == if a.peak_pct.below(b.peak_pct) {
        Episode { start_ts: a.start_ts, ..b }
    } else {
        Episode { end_ts: b.end_ts, ..a }
    }
}

/// Whether `r` is what the episodes before `mid` and those behind it make up:
/// all of them, but for one that was cut at `mid`, which is one again.
pub open spec fn joined(a: Seq<Episode>, b: Seq<Episode>, mid: u64, r: Seq<Episode>) -> bool {
    if meet(a, b, mid) {
        let m = r[a.len() - 1];
        &&& r == a.drop_last().push(m) + b.skip(1)
        &&& merges(a.last(), b[0], m)
    } else {
        r == a + b
    }
}

/// Whether the first of some slots carries on the episode that lasts to the end
/// of the slots before.
spec fn carries_on(before: Runs, slots: Seq<Option<Reading>>) -> bool {
    &&& slots.len() > 0
    &&& before.open is Some
    &&& slot_band(slots[0]) > 0
    &&& slot_band(slots[0]) == before.open->Some_0.band
}

/// What the episodes of some slots are when slots stand before them.
spec fn carried(s: Runs, b: Runs, r: Runs, on: bool) -> bool {
    if !on {
        r.done == s.all() + b.done && r.open == b.open
    } else {
        let e = s.open->Some_0;
        if b.done.len() == 0 {
            &&& b.open is Some
            &&& r.open is Some
            &&& r.done == s.done
            &&& merges(e, b.open->Some_0, r.open->Some_0)
        } else {
            let m = r.done[s.done.len() as int];
            &&& r.open == b.open
            &&& r.done == s.done.push(m) + b.done.skip(1)
            &&& merges(e, b.done[0], m)
        }
    }
}

proof fn lemma_runs_carry(
    x: Seq<Option<Reading>>,
    y: Seq<Option<Reading>>,
    from: u64,
    mid: u64,
)
    requires
        mid == from + STEP * x.len(),
        y.len() > 0,
    ensures
        carried(
            super::analysis::runs(x, from),
            super::analysis::runs(y, mid),
            super::analysis::runs(x + y, from),
            carries_on(super::analysis::runs(x, from), y),
        ),
    decreases y.len(),
{
    let s = super::analysis::runs(x, from);
    let shorter = y.drop_last();
    let last = y.last();
    let both = x + y;
    assert(both.drop_last() =~= x + shorter);
    assert(both.last() == last);
    let ts = super::analysis::slot_ts(from, both.len() - 1);
    assert(ts == super::analysis::slot_ts(mid, y.len() - 1));
    let b = super::analysis::runs(y, mid);
    let r = super::analysis::runs(both, from);
    let b0 = super::analysis::runs(shorter, mid);
    let r0 = super::analysis::runs(x + shorter, from);
    assert(b == b0.and_slot(ts, last));
    assert(r == r0.and_slot(ts, last));
    let on = carries_on(s, y);
    if shorter.len() == 0 {
        assert(x + shorter =~= x);
        assert(y[0] == last);
        assert(b0.all() =~= Seq::empty());
        if on {
            assert(b.done =~= Seq::empty());
        } else {
            assert(b.done =~= Seq::empty());
            assert(s.all() + b.done =~= s.all());
        }
    } else {
        assert(shorter[0] == y[0]);
        lemma_runs_carry(x, shorter, from, mid);
        assert(on == carries_on(s, shorter));
        if !on {
            assert(r0.all() =~= s.all() + b0.all());
        } else if b0.done.len() == 0 {
            let m = r0.open->Some_0;
            if b.done.len() > 0 {
                assert(b.done =~= seq![b0.open->Some_0]);
                assert(r.done =~= s.done.push(m));
                assert(r.done =~= s.done.push(m) + b.done.skip(1));
            }
        } else {
            let m = r0.done[s.done.len() as int];
            if b.done.len() == b0.done.len() {
                assert(r.done == r0.done);
            } else {
                assert(b.done.skip(1) =~= b0.done.skip(1).push(b0.open->Some_0));
                assert(r.done =~= s.done.push(m) + b.done.skip(1));
            }
        }
    }
}

#[verifier::rlimit(60)]
proof fn lemma_episodes_join(
    x: Seq<Option<Reading>>,
    y: Seq<Option<Reading>>,
    from: u64,
    mid: u64,
)
    requires
        mid == from + STEP * x.len(),
        in_time(x + y, from),
    ensures
        joined(
            super::analysis::runs(x, from).all(),
            super::analysis::runs(y, mid).all(),
            mid,
            super::analysis::runs(x + y, from).all(),
        ),
{
    let s = super::analysis::runs(x, from);
    let b = super::analysis::runs(y, mid);
    let r = super::analysis::runs(x + y, from);
    let sa = s.all();
    let ba = b.all();
    lemma_sound(x, from);
    lemma_sound(y, mid);
    if y.len() == 0 {
        assert(x + y =~= x);
        assert(sa + ba =~= sa);
    } else {
        lemma_runs_carry(x, y, from, mid);
        let on = carries_on(s, y);
        assert(on <==> meet(sa, ba, mid)) by {
            if sa.len() > 0 && sa.last().end_ts == mid {
                if s.open is None {
                    let e = s.done[s.done.len() - 1];
                    assert(sa.last() == e);
                    assert(is_run(x, from, e));
                    assert(slot_band(x[x.len() - 1]) == e.band);
                }
            }
            if ba.len() > 0 {
                let f = ba[0];
                if b.done.len() > 0 {
                    assert(f == b.done[0]);
                }
                assert(is_run(y, mid, f));
                if f.start_ts == mid {
                    assert(slot_band(y[0]) == f.band);
                }
            }
            if on {
                let e = s.open->Some_0;
                assert(sa.last() == e);
                let f = ba[0];
                if b.done.len() > 0 {
                    assert(f == b.done[0]);
                }
                assert(is_run(y, mid, f));
                lemma_first_starts(y, mid);
            }
        }
        if on {
            let m = r.all()[sa.len() - 1];
            assert(sa.drop_last() =~= s.done);
            assert(r.all() =~= sa.drop_last().push(m) + ba.skip(1));
        } else {
            assert(r.all() =~= sa + ba);
        }
    }
}

proof fn lemma_first_starts(slots: Seq<Option<Reading>>, from: u64)
    requires
        in_time(slots, from),
        slots.len() > 0,
        slot_band(slots[0]) > 0,
    ensures
        super::analysis::runs(slots, from).all().len() > 0,
        super::analysis::runs(slots, from).all()[0].start_ts == from,
    decreases slots.len(),
{
    let shorter = slots.drop_last();
    if shorter.len() > 0 {
        assert(shorter[0] == slots[0]);
        lemma_first_starts(shorter, from);
        let r = super::analysis::runs(shorter, from);
        let after = super::analysis::runs(slots, from);
        if r.done.len() > 0 {
            assert(r.all()[0] == r.done[0]);
            assert(after.all()[0].start_ts == from);
        }
    } else {
        assert(super::analysis::runs(shorter, from).all() =~= Seq::empty());
    }
}

proof fn lemma_counts_join(x: Seq<Option<Reading>>, y: Seq<Option<Reading>>, band: int)
    ensures
        super::analysis::band_count(x + y, band) == super::analysis::band_count(x, band)
            + super::analysis::band_count(y, band),
        super::analysis::sparse_count(x + y) == super::analysis::sparse_count(x)
            + super::analysis::sparse_count(y),
    decreases y.len(),
{
    if y.len() == 0 {
        assert(x + y =~= x);
    } else {
        lemma_counts_join(x, y.drop_last(), band);
        assert((x + y).drop_last() =~= x + y.drop_last());
    }
}

proof fn lemma_coverage_joins(column: Map<u64, Num>, from: u64, mid: u64, k: nat, n: nat)
    requires
        mid == from + STEP * k,
    ensures
        super::analysis::covered(column, from, k + n) == super::analysis::covered(column, from, k)
            + super::analysis::covered(column, mid, n),
    decreases n,
{
    if n > 0 {
        lemma_coverage_joins(column, from, mid, k, (n - 1) as nat);
        assert(super::analysis::slot_ts(from, k + n - 1) == super::analysis::slot_ts(mid, n - 1));
    }
}

/// A window can be split at the start of any of its slots: the counts of the
/// parts add up to those of the whole, and its episodes are those of the parts,
/// but for one that was cut, which is one again.
#[verifier::rlimit(60)]
pub proof fn windows_can_be_split(
    columns: Seq<Map<u64, Num>>,
    from: u64,
    mid: u64,
    to: u64,
    first: Seq<SlotFigures>,
    second: Seq<SlotFigures>,
)
    requires
        from <= mid <= to <= u64::MAX - STEP,
        (mid - from) % STEP as int == 0,
        first.len() == super::analysis::window_slots(from, mid),
        second.len() == super::analysis::window_slots(mid, to),
    ensures
        ({
            let a = super::analysis::analysis_of(columns, from, mid, first);
            let b = super::analysis::analysis_of(columns, mid, to, second);
            let r = super::analysis::analysis_of(columns, from, to, first + second);
            &&& r.total_slots == a.total_slots + b.total_slots
            &&& r.no_data_slots == a.no_data_slots + b.no_data_slots
            &&& forall|i: int|
                0 <= i < 4 ==> #[trigger] r.band_slots[i] == a.band_slots[i] + b.band_slots[i]
            &&& forall|v: int|
                0 <= v < columns.len() ==> (#[trigger] r.coverage[v]).0 == a.coverage[v].0
                    && r.coverage[v].1 == a.coverage[v].1 + b.coverage[v].1
            &&& joined(a.episodes, b.episodes, mid, r.episodes)
        }),
{
    let k = super::analysis::window_slots(from, mid);
    let n = super::analysis::window_slots(mid, to);
    let x = super::analysis::window_readings(columns, from, mid, first);
    let y = super::analysis::window_readings(columns, mid, to, second);
    let z = super::analysis::window_readings(columns, from, to, first + second);
    assert(mid == from + STEP * k);
    assert(super::analysis::window_slots(from, to) == k + n);
    assert forall|i: int| 0 <= i < k + n implies #[trigger] z[i] == (x + y)[i] by {
        if i < k {
            assert((first + second)[i] == first[i]);
        } else {
            assert((first + second)[i] == second[i - k]);
            assert(super::analysis::slot_ts(from, i) == super::analysis::slot_ts(mid, i - k));
        }
    }
    assert(z =~= x + y);
    assert forall|i: int| 0 <= i < 4 implies super::analysis::band_count(z, i)
        == #[trigger] super::analysis::band_count(x, i) + super::analysis::band_count(y, i) by {
        lemma_counts_join(x, y, i);
    }
    lemma_counts_join(x, y, 0);
    assert forall|v: int| 0 <= v < columns.len() implies super::analysis::covered(
        #[trigger] columns[v],
        from,
        k + n,
    ) == super::analysis::covered(columns[v], from, k) + super::analysis::covered(
        columns[v],
        mid,
        n,
    ) by {
        lemma_coverage_joins(columns[v], from, mid, k, n);
    }
    if n > 0 {
        crate::grid::slots_lie_in_the_window(mid as nat, to as nat, STEP as nat, (n - 1) as nat);
    }
    assert(in_time(x + y, from));
    lemma_episodes_join(x, y, from, mid);
}

} // verus!
