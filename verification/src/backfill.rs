//! What the exchanges return for a window, brought onto a common grid.

use serde_json::Value;

use vstd::prelude::*;
use vstd::string::*;

use crate::grid::{Grid, Row};
use crate::ndjson::results_line;
use crate::text::push_decimal;
use crate::venue::Venue;

verus! {

/// The column that candles make up. Of several for one slot the last one stays.
pub open spec fn column_of<T>(candles: Seq<(u64, T)>) -> Map<u64, T>
    decreases candles.len(),
{
    if candles.len() == 0 {
        Map::empty()
    } else {
        column_of(candles.drop_last()).insert(candles.last().0, candles.last().1)
    }
}

/// Of several candles for one slot a column holds the last one.
pub proof fn last_candle_stays<T>(candles: Seq<(u64, T)>, i: int)
    requires
        0 <= i < candles.len(),
        forall|j: int| i < j < candles.len() ==> (#[trigger] candles[j]).0 != candles[i].0,
    ensures
        column_of(candles).contains_key(candles[i].0),
        column_of(candles)[candles[i].0] == candles[i].1,
    decreases candles.len(),
{
    let before = candles.drop_last();
    if i < before.len() {
        assert forall|j: int| i < j < before.len() implies (#[trigger] before[j]).0
            != before[i].0 by {
            assert(before[j] == candles[j]);
        }
        last_candle_stays(before, i);
        assert(candles[candles.len() - 1].0 != candles[i].0);
    }
}

/// A column holds no slot but those for which there is a candle.
pub proof fn slots_come_from_candles<T>(candles: Seq<(u64, T)>, ts: u64)
    requires
        column_of(candles).contains_key(ts),
    ensures
        exists|i: int| 0 <= i < candles.len() && (#[trigger] candles[i]).0 == ts,
    decreases candles.len(),
{
    if candles.len() > 0 {
        let before = candles.drop_last();
        if candles.last().0 == ts {
            assert(candles[candles.len() - 1].0 == ts);
        } else {
            slots_come_from_candles(before, ts);
            let i = choose|i: int| 0 <= i < before.len() && (#[trigger] before[i]).0 == ts;
            assert(candles[i].0 == ts);
        }
    }
}

/// What went wrong with an exchange: what it says, or that it has no candle.
pub open spec fn failure<T>(fetched: Result<Vec<(u64, T)>, String>) -> Option<Seq<char>> {
    match fetched {
        Ok(candles) => if candles@.len() == 0 {
            Some("no candles returned"@)
        } else {
            None
        },
        Err(message) => Some(message@),
    }
}

/// The columns of some exchanges.
pub open spec fn columns_of<T>(fetched: Seq<Result<Vec<(u64, T)>, String>>) -> Seq<Map<u64, T>> {
    fetched.map_values(
        |f: Result<Vec<(u64, T)>, String>|
            match f {
                Ok(candles) => column_of(candles@),
                Err(_) => Map::empty(),
            },
    )
}

/// The exchanges with which something went wrong, in their order.
pub open spec fn failures<T>(
    venues: Seq<Venue>,
    fetched: Seq<Result<Vec<(u64, T)>, String>>,
) -> Seq<(Venue, Seq<char>)>
    decreases fetched.len(),
{
    if fetched.len() == 0 {
        Seq::empty()
    } else {
        let before = failures(venues, fetched.drop_last());
        match failure(fetched.last()) {
            Some(message) => before.push((venues[fetched.len() - 1], message)),
            None => before,
        }
    }
}

/// Messages of exchanges by their texts.
pub open spec fn message_texts(errors: Seq<(Venue, String)>) -> Seq<(Venue, Seq<char>)> {
    errors.map_values(|e: (Venue, String)| (e.0, e.1@))
}

/// The candles of the exchanges on a grid, and what went wrong.
pub struct Backfill<T> {
    pub grid: Grid<T>,
    pub errors: Vec<(Venue, String)>,
}

fn fill_column<T: Copy>(grid: &mut Grid<T>, v: usize, candles: &Vec<(u64, T)>)
    requires
        v < old(grid)@.len(),
        old(grid)@[v as int] == Map::<u64, T>::empty(),
    ensures
        final(grid)@ == old(grid)@.update(v as int, column_of(candles@)),
{
    let ghost start = grid@;
    let mut i: usize = 0;
    assert(candles@.take(0) =~= Seq::empty());
    assert(grid@ =~= start.update(v as int, column_of(candles@.take(0))));
    while i < candles.len()
        invariant
            i <= candles@.len(),
            v < start.len(),
            grid@ == start.update(v as int, column_of(candles@.take(i as int))),
        decreases candles.len() - i,
    {
        assert(candles@.take(i + 1).drop_last() =~= candles@.take(i as int));
        let (ts, value) = candles[i];
        grid.put(v, ts, value);
        assert(grid@ =~= start.update(v as int, column_of(candles@.take(i + 1))));
        i = i + 1;
    }
    assert(candles@.take(candles@.len() as int) =~= candles@);
}

/// Brings what the exchanges returned onto a grid.
pub fn align<T: Copy>(
    venues: &Vec<Venue>,
    fetched: Vec<Result<Vec<(u64, T)>, String>>,
) -> (r: Backfill<T>)
    requires
        venues@.len() == fetched@.len(),
    ensures
        r.grid@ == columns_of(fetched@),
        message_texts(r.errors@) == failures(venues@, fetched@),
{
    let ghost goal = columns_of(fetched@);
    let mut grid: Grid<T> = Grid::new(venues.len());
    let mut errors: Vec<(Venue, String)> = Vec::new();
    let mut v: usize = 0;
    assert(fetched@.take(0) =~= Seq::empty());
    assert(message_texts(errors@) =~= failures(venues@, fetched@.take(0)));
    for one in it: fetched
        invariant
            it.seq() == fetched@,
            v == it.index(),
            venues@.len() == fetched@.len(),
            goal == columns_of(fetched@),
            grid@.len() == goal.len(),
            forall|k: int| 0 <= k < v ==> #[trigger] grid@[k] == goal[k],
            forall|k: int|
                v <= k < goal.len() ==> #[trigger] grid@[k] == Map::<u64, T>::empty(),
            message_texts(errors@) == failures(venues@, fetched@.take(v as int)),
    {
        assert(fetched@.take(v + 1).drop_last() =~= fetched@.take(v as int));
        assert(fetched@.take(v + 1).last() == one);
        assert(v < venues.len());
        let ghost before = errors@;
        match one {
            Ok(candles) => {
                if candles.len() > 0 {
                    fill_column(&mut grid, v, &candles);
                } else {
                    let error = (venues[v], "no candles returned".to_owned());
                    errors.push(error);
                    assert(message_texts(errors@) =~= message_texts(before).push(
                        (error.0, error.1@),
                    ));
                }
            },
            Err(message) => {
                let error = (venues[v], message);
                errors.push(error);
                assert(message_texts(errors@) =~= message_texts(before).push((error.0, error.1@)));
            },
        }
        v = v + 1;
    }
    assert(fetched@.take(fetched@.len() as int) =~= fetched@);
    assert(grid@ =~= goal);
    Backfill { grid, errors }
}

/// What is said of an exchange with candles: how many there are, and the time
/// of the first and of the last.
pub open spec fn candles_words(venue: Venue, n: nat, first: u64, last: u64) -> Seq<char> {
    crate::venue::venue_name(venue) + ": "@ + crate::text::decimal(n) + " candles ("@
        + crate::text::decimal(first as nat) + ".."@ + crate::text::decimal(last as nat) + ")"@
}

/// Says what candles an exchange has, where it has some.
pub fn candles_note<T: Copy>(grid: &Grid<T>, v: usize, venue: Venue) -> (r: Option<String>)
    requires
        v < grid@.len(),
    ensures
        r is None <==> grid@[v as int].is_empty(),
        r matches Some(s) ==> exists|first: u64, last: u64|
            #![trigger candles_words(venue, grid@[v as int].len(), first, last)]
            crate::grid::is_column_span(grid@[v as int], Some((first, last))) && s@
                == candles_words(venue, grid@[v as int].len(), first, last),
{
    match grid.column_span(v) {
        Some((first, last)) => {
            let mut out = venue.name().to_owned();
            out.append(": ");
            push_decimal(&mut out, grid.column_len(v) as u64);
            out.append(" candles (");
            push_decimal(&mut out, first);
            out.append("..");
            push_decimal(&mut out, last);
            out.append(")");
            assert(out@ == candles_words(venue, grid@[v as int].len(), first, last));
            assert(grid@[v as int].dom().contains(first));
            Some(out)
        },
        None => {
            assert(grid@[v as int].dom() =~= Set::empty());
            None
        },
    }
}

/// What is said of an exchange with which something went wrong.
pub open spec fn failure_words(venue: Venue, message: Seq<char>) -> Seq<char> {
    crate::venue::venue_name(venue) + ": FAILED — "@ + message
}

/// Says what went wrong with an exchange.
pub fn failure_note(venue: Venue, message: &str) -> (r: String)
    ensures
        r@ == failure_words(venue, message@),
{
    let mut out = venue.name().to_owned();
    out.append(": FAILED — ");
    out.append(message);
    out
}

/// What is said when the rows of a window are written.
pub open spec fn written_words(rows: nat, path: Seq<char>) -> Seq<char> {
    "wrote "@ + crate::text::decimal(rows) + " aligned rows to "@ + path
}

/// Says how many rows were written.
pub fn written_note(rows: u64, path: &str) -> (r: String)
    ensures
        r@ == written_words(rows as nat, path@),
{
    let mut out = "wrote ".to_owned();
    push_decimal(&mut out, rows);
    out.append(" aligned rows to ");
    out.append(path);
    out
}

/// What is said when candles of a window are about to be fetched.
pub open spec fn start_words(grain: Seq<char>, from: u64, to: u64, step: u64) -> Seq<char> {
    "backfilling "@ + grain + " candles from "@ + crate::text::decimal(from as nat) + " to "@
        + crate::text::decimal(to as nat) + " ("@ + crate::text::decimal(
        ((to - from) / step as int) as nat,
    ) + " slots)"@
}

/// Says which candles are about to be fetched.
pub fn start_note(grain: &str, from: u64, to: u64, step: u64) -> (r: String)
    requires
        from <= to,
        step > 0,
    ensures
        r@ == start_words(grain@, from, to, step),
{
    let mut out = "backfilling ".to_owned();
    out.append(grain);
    out.append(" candles from ");
    push_decimal(&mut out, from);
    out.append(" to ");
    push_decimal(&mut out, to);
    out.append(" (");
    push_decimal(&mut out, (to - from) / step);
    out.append(" slots)");
    out
}

/// Every exchange either fails or has a column that is not empty, never both.
pub proof fn failures_have_no_candles<T>(fetched: Seq<Result<Vec<(u64, T)>, String>>, v: int)
    requires
        0 <= v < fetched.len(),
    ensures
        failure(fetched[v]) is Some <==> columns_of(fetched)[v].is_empty(),
{
    match fetched[v] {
        Ok(candles) => {
            if candles@.len() > 0 {
                let last = candles@.last();
                assert(column_of(candles@).dom().contains(last.0));
            }
        },
        Err(_) => {},
    }
}

/// The values of a slot, each with the exchange that holds it.
pub open spec fn shown_cells<T>(
    venues: Seq<Venue>,
    cells: Seq<(usize, T)>,
    values: Seq<Value>,
) -> Seq<(Venue, Value)> {
    Seq::new(cells.len(), |k: int| (venues[cells[k].0 as int], values[k]))
}

/// Writes what the exchanges hold in a slot as a line. `values` holds what the
/// line is to show of each of them.
pub fn aligned_line<T>(venues: &Vec<Venue>, row: &Row<T>, values: Vec<Value>) -> (r: String)
    requires
        values@.len() == row.cells@.len(),
        forall|k: int|
            0 <= k < row.cells@.len() ==> (#[trigger] row.cells@[k]).0 < venues@.len(),
    ensures
        ({
            let entries = crate::ndjson::row(
                row.ts,
                crate::ndjson::by_name(shown_cells(venues@, row.cells@, values@)),
            );
            &&& r@ == crate::ndjson::line(entries)
            &&& crate::ndjson::is_faithful(entries)
        }),
{
    let ghost all = shown_cells(venues@, row.cells@, values@);
    let mut prices: Vec<(Venue, Value)> = Vec::new();
    let mut k: usize = 0;
    for value in it: values
        invariant
            it.seq() == values@,
            k == it.index(),
            values@.len() == row.cells@.len(),
            all == shown_cells(venues@, row.cells@, values@),
            forall|k: int|
                0 <= k < row.cells@.len() ==> (#[trigger] row.cells@[k]).0 < venues@.len(),
            prices@ == all.take(k as int),
    {
        assert(k < row.cells.len());
        assert(all.take(k + 1) =~= all.take(k as int).push(all[k as int]));
        prices.push((venues[row.cells[k].0], value));
        k = k + 1;
    }
    assert(all.take(all.len() as int) =~= all);
    results_line(row.ts, prices)
}


/// Every exchange with which something went wrong is told of, in the order of the
/// exchanges: one that failed with what it says, and one without a candle as
/// such.
pub proof fn failures_are_told_of<T>(venues: Seq<Venue>, fetched: Seq<Result<Vec<(u64, T)>, String>>)
    requires
        venues.len() == fetched.len(),
    ensures
        failures(venues, fetched) == Seq::new(
            fetched.len(),
            |v: int| (venues[v], failure(fetched[v])),
        ).filter(|f: (Venue, Option<Seq<char>>)| f.1 is Some).map_values(
            |f: (Venue, Option<Seq<char>>)| (f.0, f.1->Some_0),
        ),
        forall|v: int|
            0 <= v < fetched.len() ==> match #[trigger] fetched[v] {
                Ok(candles) => failure(fetched[v]) is None <==> candles@.len() > 0,
                Err(message) => failure(fetched[v]) == Some(message@),
            },
{
    lemma_failures(venues, fetched);
}

proof fn lemma_failures<T>(venues: Seq<Venue>, fetched: Seq<Result<Vec<(u64, T)>, String>>)
    requires
        venues.len() >= fetched.len(),
    ensures
        failures(venues, fetched) == Seq::new(
            fetched.len(),
            |v: int| (venues[v], failure(fetched[v])),
        ).filter(|f: (Venue, Option<Seq<char>>)| f.1 is Some).map_values(
            |f: (Venue, Option<Seq<char>>)| (f.0, f.1->Some_0),
        ),
    decreases fetched.len(),
{
    reveal(Seq::filter);
    let told = |f: (Venue, Option<Seq<char>>)| f.1 is Some;
    let shown = |f: (Venue, Option<Seq<char>>)| (f.0, f.1->Some_0);
    let all = Seq::new(fetched.len(), |v: int| (venues[v], failure(fetched[v])));
    if fetched.len() > 0 {
        let fewer = fetched.drop_last();
        let some = Seq::new(fewer.len(), |v: int| (venues[v], failure(fewer[v])));
        lemma_failures(venues, fewer);
        assert(all.drop_last() =~= some);
        assert(all.last() == (venues[fetched.len() - 1], failure(fetched.last())));
        if told(all.last()) {
            assert(some.filter(told).push(all.last()).map_values(shown) =~= some.filter(
                told,
            ).map_values(shown).push(shown(all.last())));
        }
    } else {
        assert(all.filter(told).map_values(shown) =~= Seq::empty());
    }
}

/// The line of a slot shows its time, and under the name of each exchange that
/// holds something the value for it.
pub proof fn rows_show_their_cells<T>(
    ts: u64,
    venues: Seq<Venue>,
    cells: Seq<(usize, T)>,
    values: Seq<Value>,
    k: int,
)
    requires
        values.len() == cells.len(),
        forall|k: int| 0 <= k < cells.len() ==> (#[trigger] cells[k]).0 < venues.len(),
        forall|j: int, k: int|
            0 <= j < k < cells.len() ==> venues[(#[trigger] cells[j]).0 as int] != venues[(
            #[trigger] cells[k]).0 as int],
        0 <= k < cells.len(),
    ensures
        ({
            let entries = crate::ndjson::row(
                ts,
                crate::ndjson::by_name(shown_cells(venues, cells, values)),
            );
            &&& entries.len() == cells.len() + 1
            &&& crate::json::lookup(entries, "ts"@) == Some(crate::json::Json::Count(ts))
            &&& crate::json::lookup(
                entries,
                crate::venue::venue_name(venues[cells[k].0 as int]),
            ) == Some(crate::json::json_of(values[k]))
        }),
{
    let prices = shown_cells(venues, cells, values);
    assert forall|i: int, j: int| 0 <= i < j < prices.len() implies (#[trigger] prices[i]).0 != (
    #[trigger] prices[j]).0 by {
        assert(prices[i].0 == venues[cells[i].0 as int]);
        assert(prices[j].0 == venues[cells[j].0 as int]);
    }
    crate::ndjson::prices_are_found_by_name(ts, prices, k);
    assert(prices[k] == (venues[cells[k].0 as int], values[k]));
}


/// A note on the candles of an exchange says how many there are, and when the
/// first and the last of them start.
pub proof fn candles_are_told_of(venue: Venue, n: u64, first: u64, last: u64) -> (told: Seq<
    Seq<char>,
>)
    ensures
        told.len() == 3,
        candles_words(venue, n as nat, first, last) == crate::venue::venue_name(venue) + ": "@
            + told[0] + " candles ("@ + told[1] + ".."@ + told[2] + ")"@,
        crate::text::parsed_u64(told[0]) == Ok::<u64, crate::text::IntError>(n),
        crate::text::parsed_u64(told[1]) == Ok::<u64, crate::text::IntError>(first),
        crate::text::parsed_u64(told[2]) == Ok::<u64, crate::text::IntError>(last),
{
    crate::text::decimal_reads_back(n);
    crate::text::decimal_reads_back(first);
    crate::text::decimal_reads_back(last);
    seq![
        crate::text::decimal(n as nat),
        crate::text::decimal(first as nat),
        crate::text::decimal(last as nat),
    ]
}

/// A note on a window says when it starts and ends, and how many whole steps it
/// spans.
pub proof fn windows_are_told_of(
    grain: Seq<char>,
    from: u64,
    to: u64,
    step: u64,
    slots: u64,
) -> (told: Seq<Seq<char>>)
    requires
        step > 0,
        slots * step <= to - from < (slots + 1) * step,
    ensures
        told.len() == 3,
        start_words(grain, from, to, step) == "backfilling "@ + grain + " candles from "@ + told[0]
            + " to "@ + told[1] + " ("@ + told[2] + " slots)"@,
        crate::text::parsed_u64(told[0]) == Ok::<u64, crate::text::IntError>(from),
        crate::text::parsed_u64(told[1]) == Ok::<u64, crate::text::IntError>(to),
        crate::text::parsed_u64(told[2]) == Ok::<u64, crate::text::IntError>(slots),
{
    crate::text::decimal_reads_back(from);
    crate::text::decimal_reads_back(to);
    crate::text::decimal_reads_back(slots);
    let rest = to - from - slots * step;
    assert((slots + 1) * step == slots * step + step) by (nonlinear_arith);
    vstd::arithmetic::div_mod::lemma_fundamental_div_mod_converse(
        to - from,
        step as int,
        slots as int,
        rest,
    );
    seq![
        crate::text::decimal(from as nat),
        crate::text::decimal(to as nat),
        crate::text::decimal(slots as nat),
    ]
}

} // verus!
